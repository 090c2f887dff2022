use grust::enumeration::{IntrospectedEnum, UnknownValue};
use grust::error::{self, Code, Domain, DomainError, Error, GError, Match};
use grust::gobject::Object;
use grust::heap::Heap;
use grust::quark::Quark;
use grust::refcount::Ref;
use grust::types::gint;
use grust::wrap::RawPtr;

const NON_UTF8: &[u8] = b"U can't parse this.\x9c Hammer time!";
const NON_UTF8_LOSSY: &str = "U can't parse this.\u{FFFD} Hammer time!";
const NON_UTF8_ESCAPED: &str = r#"U can\'t parse this.\x9c Hammer time!"#;

const A_FOO: gint = 1;
const A_BAR: gint = 2;
const B_BAZ: gint = 1;

const UNKNOWN_CODE: gint = 1337;

#[derive(Clone, Copy, Debug, PartialEq, Eq)]
enum AError {
    Foo,
    Bar,
}

#[derive(Clone, Copy, Debug, PartialEq, Eq)]
enum BError {
    Baz,
}

impl IntrospectedEnum for AError {
    fn from_int(v: gint) -> Result<Self, UnknownValue> {
        match v {
            A_FOO => Ok(AError::Foo),
            A_BAR => Ok(AError::Bar),
            _ => Err(UnknownValue(v)),
        }
    }

    fn to_int(&self) -> gint {
        match *self {
            AError::Foo => A_FOO,
            AError::Bar => A_BAR,
        }
    }

    fn name(&self) -> &'static str {
        match *self {
            AError::Foo => "foo",
            AError::Bar => "bar",
        }
    }
}

impl IntrospectedEnum for BError {
    fn from_int(v: gint) -> Result<Self, UnknownValue> {
        match v {
            B_BAZ => Ok(BError::Baz),
            _ => Err(UnknownValue(v)),
        }
    }

    fn to_int(&self) -> gint {
        B_BAZ
    }

    fn name(&self) -> &'static str {
        "baz"
    }
}

// The quarks under which `runtime` interns the names of the two domains.

impl Domain for AError {
    fn domain() -> Quark {
        Quark::from_raw(1)
    }
}

impl Domain for BError {
    fn domain() -> Quark {
        Quark::from_raw(2)
    }
}

fn runtime() -> Heap {
    let mut rt = Heap::new();
    assert_eq!(Quark::from_static_bytes(&mut rt, b"a-error\0"), AError::domain());
    assert_eq!(Quark::from_static_bytes(&mut rt, b"b-error\0"), BError::domain());
    rt
}

fn new_error<T: Domain>(code: gint, message: &[u8]) -> Error {
    Error::from_raw(GError { domain: error::domain::<T>(), code, message: message.to_vec() })
}

fn new_domain_error<T: Domain>(code: gint, message: &[u8]) -> DomainError<T> {
    new_error::<T>(code, message).into_domain().ok().unwrap()
}

#[test]
fn message() {
    let domain = Quark::from_raw(1);
    let message = "test message";
    let err = Error::from_raw(GError { domain, code: 1, message: message.as_bytes().to_vec() });
    assert_eq!(err.message().unwrap(), message);
    let err = Error::from_raw(GError { domain, code: 1, message: NON_UTF8.to_vec() });
    assert!(err.message().is_none());
}

#[test]
fn message_bytes() {
    let domain = Quark::from_raw(1);
    let err = Error::from_raw(GError { domain, code: 1, message: NON_UTF8.to_vec() });
    assert_eq!(err.message_bytes(), &NON_UTF8[..]);
}

#[test]
fn test_domain() {
    let rt = runtime();
    let domain = error::domain::<AError>();
    assert_eq!(domain, <AError as Domain>::domain());
    assert_eq!(domain.to_bytes(&rt), b"a-error");
    let domain = error::domain::<BError>();
    assert_eq!(domain, <BError as Domain>::domain());
    assert_eq!(domain.to_bytes(&rt), b"b-error");
}

#[test]
fn test_error_domain() {
    let err = new_error::<AError>(A_FOO, b"test error");
    assert_eq!(err.domain(), error::domain::<AError>());
}

#[test]
fn test_error_matches() {
    let err = new_error::<AError>(A_FOO, b"test error");
    assert!(err.matches(AError::Foo));
    assert!(!err.matches(AError::Bar));
    assert!(!err.matches(BError::Baz));
}

#[test]
fn test_error_matches_unknown_code() {
    let err = new_error::<AError>(UNKNOWN_CODE, b"test error");
    assert!(!err.matches(AError::Foo));
    assert!(!err.matches(AError::Bar));
}

#[test]
fn test_error_key() {
    let err_foo1 = new_error::<AError>(A_FOO, b"test error");
    let err_foo2 = new_error::<AError>(A_FOO, b"same error, different message");
    assert_eq!(err_foo1.key(), err_foo2.key());
    let err_bar = new_error::<AError>(A_BAR, b"test error");
    assert!(err_foo1.key() != err_bar.key());
    let err_baz = new_error::<BError>(B_BAZ, b"test error");
    assert!(err_foo1.key() != err_baz.key());
}

#[test]
fn test_error_in_domain() {
    let err = new_error::<AError>(A_FOO, b"test error");
    assert!(err.in_domain::<AError>());
    assert!(!err.in_domain::<BError>());
}

#[test]
fn test_error_into_domain() {
    let err = new_error::<AError>(A_FOO, b"test error");
    let res = err.into_domain::<AError>();
    let a_err = res.ok().unwrap();
    assert_eq!(a_err.code(), error::Code::Known(AError::Foo));
}

#[test]
fn test_error_into_other_domain() {
    let err = new_error::<AError>(A_FOO, b"test error");
    let res = err.into_domain::<BError>();
    let back = res.err().unwrap();
    assert_eq!(back.key(), (AError::domain(), A_FOO));
    assert_eq!(back.message_bytes(), b"test error");
}

#[test]
fn test_domain_error_code() {
    let err = new_domain_error::<AError>(A_FOO, b"test error");
    let code = err.code();
    match code {
        error::Code::Known(c) => assert_eq!(c, AError::Foo),
        error::Code::Unknown(_) => unreachable!(),
    }
    let known = code.known();
    assert_eq!(known, Some(AError::Foo));

    let err = new_domain_error::<AError>(UNKNOWN_CODE, b"unknown error");
    let code = err.code();
    match code {
        error::Code::Known(_) => unreachable!(),
        error::Code::Unknown(int_code) => assert_eq!(int_code, UNKNOWN_CODE),
    }
    let known = code.known();
    assert!(known.is_none());
}

#[test]
fn test_code_same() {
    let foo: Code<AError> = Code::Known(AError::Foo);
    assert!(foo.same(&Code::Known(AError::Foo)));
    assert!(!foo.same(&Code::Known(AError::Bar)));
    assert!(!foo.same(&Code::Unknown(A_FOO)));
    let unknown: Code<AError> = Code::Unknown(7);
    assert!(unknown.same(&Code::Unknown(7)));
    assert!(!unknown.same(&Code::Unknown(8)));
    assert_eq!(foo, Code::Known(AError::Foo));
    assert!(foo != Code::Unknown(A_FOO));
}

#[test]
fn test_error_description() {
    let rt = runtime();
    let message = "test error";
    let err = new_error::<AError>(A_FOO, message.as_bytes());
    assert_eq!(err.description(&rt), message);
    let err = new_error::<AError>(A_FOO, NON_UTF8);
    assert_eq!(err.description(&rt), "a-error");
}

#[test]
fn test_error_description_without_any_text() {
    let mut rt = runtime();
    let domain = Quark::from_static_bytes(&mut rt, b"\xff-error\0");
    let err = Error::from_raw(GError { domain, code: 1, message: NON_UTF8.to_vec() });
    assert_eq!(err.description(&rt), "GError (message and domain are not represented)");
}

#[test]
fn test_domain_error_description() {
    let rt = runtime();
    let message = "test error";
    let err = new_domain_error::<AError>(A_FOO, message.as_bytes());
    assert_eq!(err.description(&rt), message);
    let err = new_domain_error::<AError>(A_FOO, NON_UTF8);
    assert_eq!(err.description(&rt), "foo");
    let err = new_domain_error::<AError>(UNKNOWN_CODE, NON_UTF8);
    assert_eq!(err.description(&rt), "a-error");
}

#[test]
fn test_error_display() {
    let message = "test error";
    let err = new_error::<AError>(A_FOO, message.as_bytes());
    let s = err.to_string();
    assert_eq!(s.as_str(), message);
    let err = new_error::<AError>(A_FOO, NON_UTF8);
    let s = err.to_string();
    assert_eq!(s.as_str(), NON_UTF8_LOSSY)
}

#[test]
fn test_domain_error_display() {
    let message = "test error";
    let err = new_domain_error::<AError>(A_FOO, message.as_bytes());
    let s = err.to_string();
    assert_eq!(s.as_str(), message);
    let err = new_domain_error::<AError>(A_FOO, NON_UTF8);
    let s = err.to_string();
    assert_eq!(s.as_str(), NON_UTF8_LOSSY)
}

fn assert_contains(inp: &str, needle: &str) {
    assert!(inp.contains(needle), "unexpected `Debug` formatting: `{}`", inp)
}

#[test]
fn test_error_debug() {
    let rt = runtime();
    let message = "test error";
    let err = new_error::<AError>(A_FOO, message.as_bytes());
    let s = err.debug(&rt);
    let (domain, code) = err.key();
    let domain_str = String::from_utf8(domain.to_bytes(&rt)).unwrap();
    assert_contains(&s, "GError");
    assert_contains(&s, &domain_str);
    assert_contains(&s, &format!("{}", code));
    assert_contains(&s, &format!(r#""{}""#, message));
    assert_eq!(s, r#"GError { domain: "a-error", code: 1, message: "test error" }"#);

    let err = new_error::<BError>(B_BAZ, NON_UTF8);
    let s = err.debug(&rt);
    let (domain, code) = err.key();
    let domain_str = String::from_utf8(domain.to_bytes(&rt)).unwrap();
    assert_contains(&s, "GError");
    assert_contains(&s, &domain_str);
    assert_contains(&s, &format!("{}", code));
    assert_contains(&s, &format!(r#""{}""#, NON_UTF8_ESCAPED));
}

#[test]
fn test_domain_error_debug() {
    let rt = runtime();
    let message = "test error";
    let err = new_domain_error::<AError>(A_FOO, message.as_bytes());
    let s = err.debug(&rt);
    let domain = error::domain::<AError>();
    let domain_str = String::from_utf8(domain.to_bytes(&rt)).unwrap();
    let code = err.code().known().unwrap();
    assert_contains(&s, "GError");
    assert_contains(&s, &domain_str);
    assert_contains(&s, code.name());
    assert_contains(&s, &format!(r#""{}""#, message));
    assert_eq!(s, r#"GError { domain: "a-error", code: "foo", message: "test error" }"#);

    let err = new_domain_error::<BError>(B_BAZ, NON_UTF8);
    let s = err.debug(&rt);
    let domain = error::domain::<BError>();
    let domain_str = String::from_utf8(domain.to_bytes(&rt)).unwrap();
    let code = err.code().known().unwrap();
    assert_contains(&s, "GError");
    assert_contains(&s, &domain_str);
    assert_contains(&s, code.name());
    assert_contains(&s, &format!(r#""{}""#, NON_UTF8_ESCAPED));

    let err = new_domain_error::<AError>(UNKNOWN_CODE, b"unknown error");
    let s = err.debug(&rt);
    let domain = error::domain::<AError>();
    let domain_str = String::from_utf8(domain.to_bytes(&rt)).unwrap();
    assert_contains(&s, "GError");
    assert_contains(&s, &domain_str);
    assert_contains(&s, &format!("{}", UNKNOWN_CODE));
    assert_eq!(s, r#"GError { domain: "a-error", code: 1337, message: "unknown error" }"#);
}

#[test]
fn test_error_debug_negative_code() {
    let rt = runtime();
    let err = new_error::<AError>(-20, b"x");
    assert_eq!(err.debug(&rt), r#"GError { domain: "a-error", code: -20, message: "x" }"#);
    let err = new_error::<AError>(gint::MIN, b"");
    assert_eq!(
        err.debug(&rt),
        r#"GError { domain: "a-error", code: -2147483648, message: "" }"#
    );
    let err = new_error::<AError>(0, b"");
    assert_eq!(err.debug(&rt), r#"GError { domain: "a-error", code: 0, message: "" }"#);
}

#[test]
fn test_error_from_domain_error() {
    let rt = runtime();
    let message = "test error";
    let domain_err = new_domain_error::<AError>(A_FOO, message.as_bytes());
    let err: Error = From::from(domain_err);
    let (domain, code) = err.key();
    assert_eq!(domain, error::domain::<AError>());
    assert_eq!(code, A_FOO);
    assert_eq!(err.description(&rt), message);
    let domain_err = new_domain_error::<AError>(A_BAR, message.as_bytes());
    assert_eq!(domain_err.domain(), error::domain::<AError>());
    let err = domain_err.into_error();
    assert_eq!(err.key(), (AError::domain(), A_BAR));
}

#[test]
fn test_error_clone() {
    let rt = runtime();
    let message = "test error";
    let err = new_error::<AError>(A_FOO, message.as_bytes());
    let err2 = err.clone();
    assert_eq!(err2.description(&rt), message);
    assert_eq!(err2.key(), err.key());
}

#[test]
fn test_domain_error_clone() {
    let rt = runtime();
    let message = "test error";
    let err = new_domain_error::<AError>(A_FOO, message.as_bytes());
    let err2 = err.clone();
    assert_eq!(err2.description(&rt), message);
}

#[test]
fn test_error_match_macro() {
    let err = new_error::<AError>(A_FOO, b"test error");
    {
        let any_err: Error = err;
        // Test that the error value can be moved
        any_err.into_domain::<AError>().ok().unwrap();
    }
    let err = new_error::<AError>(A_FOO, b"test error");
    {
        let res: Result<DomainError<AError>, Error> = err.into_domain();
        match res {
            Ok(a_err) => {
                assert_eq!(a_err.code(), error::Code::Known(AError::Foo));
            }
            Err(e) => {
                let res: Result<DomainError<BError>, Error> = e.into_domain();
                match res {
                    Ok(_b_err) => unreachable!(),
                    Err(_err) => unreachable!(),
                }
            }
        }
    }
}

#[test]
fn error_to_domain() {
    let e = new_error::<AError>(A_BAR, b"no such file");
    match Match::<AError>::from_error(&e) {
        Match::Known(code) => {
            assert_eq!(code, AError::Bar);
        }
        Match::Unknown(code) => {
            panic!("unknown error code {}", code)
        }
        _ => unreachable!(),
    }
}

#[test]
fn error_match_partial_eq() {
    let e = new_error::<AError>(A_BAR, b"no such file");
    assert_eq!(Match::<AError>::from_error(&e), Match::Known(AError::Bar));
    assert_eq!(Match::<BError>::from_error(&e), Match::NotInDomain);
    let e = new_error::<AError>(UNKNOWN_CODE, b"?");
    assert_eq!(Match::<AError>::from_error(&e), Match::Unknown(UNKNOWN_CODE));
}

#[test]
fn test_init_is_not_set() {
    let err = error::init();
    assert!(!err.is_set());
    assert!(!err.clone().is_set());
    let err = new_error::<AError>(A_FOO, b"test error");
    assert!(err.is_set());
}

#[test]
fn test_ref_or_error() {
    let ptr = RawPtr { addr: 16 };
    let res: Result<Ref<Object>, Error> = error::ref_or_error(ptr, error::init());
    assert_eq!(res.ok().unwrap().as_ptr(), ptr);
    let err = new_error::<AError>(A_FOO, b"test error");
    let res: Result<Ref<Object>, Error> = error::ref_or_error(RawPtr::null(), err);
    assert_eq!(res.err().unwrap().key(), (AError::domain(), A_FOO));
}
