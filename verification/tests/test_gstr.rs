use grust::gstr;
use grust::gstr::{OwnedGStr, Utf8, Utf8String};

static TEST_CSTR: &str = "¡Hola, amigos!\0";
static TEST_STR: &str = "¡Hola, amigos!";

fn owned_g_str(source: &str) -> OwnedGStr {
    assert!(source.ends_with("\0"));
    OwnedGStr::from_ptr(source.as_bytes().to_vec())
}

fn owned_g_str_from_bytes(source: &[u8]) -> OwnedGStr {
    assert!(source.last() == Some(&0u8));
    OwnedGStr::from_ptr(source.to_vec())
}

fn g_str_equal(p1: &[u8], p2: &[u8]) -> bool {
    let end1 = gstr::find_nul(p1).unwrap();
    let end2 = gstr::find_nul(p2).unwrap();
    p1[..end1] == p2[..end2]
}

#[test]
fn test_owned_g_str_to_bytes() {
    let str = owned_g_str_from_bytes(b"a\x80\0");
    let bytes = str.to_bytes();
    assert_eq!(bytes.len(), 2);
    assert_eq!(bytes[0], b'a');
    assert_eq!(bytes[1], b'\x80');
}

#[test]
fn test_owned_g_str_clone() {
    let str1 = owned_g_str(TEST_CSTR);
    let str2 = str1.clone();
    let s = std::str::from_utf8(str2.to_bytes()).unwrap();
    assert_eq!(s, TEST_STR.to_string());
}

#[test]
fn test_owned_g_str_eq() {
    let s1 = owned_g_str(TEST_CSTR);
    let s2 = owned_g_str(TEST_CSTR);
    assert!(s1.eq(&s2));
}

#[test]
fn test_owned_g_str_ne() {
    let s1 = owned_g_str(TEST_CSTR);
    let s2 = owned_g_str("This is not the string you are looking for\0");
    assert!(!s1.eq(&s2));
}

#[test]
fn test_owned_g_str_eq_stops_at_the_nul() {
    let s1 = owned_g_str_from_bytes(b"same\0one\0");
    let s2 = owned_g_str_from_bytes(b"same\0other\0");
    assert!(s1.eq(&s2));
    assert_eq!(s1.to_bytes(), b"same");
}

#[test]
fn test_owned_g_str_deref() {
    let s = owned_g_str(TEST_CSTR);
    let p = s.as_ptr();
    assert!(g_str_equal(p, TEST_CSTR.as_bytes()));
}

#[test]
fn test_owned_g_str_parse_as_utf8() {
    let s = owned_g_str("/dev/null\0");
    assert_eq!(s.parse_as_utf8().unwrap(), "/dev/null");
    let s = owned_g_str_from_bytes(b"a\x80\0");
    assert!(s.parse_as_utf8().is_none());
}

#[test]
fn test_g_utf8_macro() {
    let s = Utf8::from_static_str("Hello!\0");
    assert!(g_str_equal(s.as_ptr(), "Hello!\0".as_bytes()));
}

#[test]
fn test_utf8_from_static_str() {
    let s = gstr::Utf8::from_static_str(TEST_CSTR);
    assert_eq!(s.as_ptr().as_ptr(), TEST_CSTR.as_ptr());
    assert_eq!(s.to_str(), TEST_STR);
}

#[test]
fn test_utf8_from_static_str_with_an_inner_nul() {
    let s = gstr::Utf8::from_static_str("one\0two\0");
    assert_eq!(s.to_str(), "one");
}

#[test]
fn test_utf8_string_from_str() {
    let s = TEST_STR.to_string();
    let buf = Utf8String::new(&s[..]).unwrap();
    assert!(g_str_equal(buf.as_ptr(), TEST_CSTR.as_bytes()));
    assert_eq!(buf.as_ptr(), TEST_CSTR.as_bytes());

    let res = Utf8String::new("got\0nul");
    let err = res.err().unwrap();
    assert_eq!(err.nul_position(), 3);
}

#[test]
fn test_utf8_string_from_string() {
    let s = TEST_STR.to_string();
    let buf = Utf8String::new(&s).unwrap();
    assert!(g_str_equal(buf.as_ptr(), TEST_CSTR.as_bytes()));
    assert_eq!(buf.deref().to_str(), TEST_STR);

    let s = "got\0nul".to_string();
    let res = Utf8String::new(&s);
    let err = res.err().unwrap();
    assert_eq!(err.nul_position(), 3);
}

#[test]
fn test_c_str_len() {
    assert_eq!(gstr::c_str_len(b"\0"), 0);
    assert_eq!(gstr::c_str_len(b"abc\0"), 3);
    assert_eq!(gstr::c_str_len(b"abc\0def\0"), 3);
    assert_eq!(gstr::find_nul(b"abc"), None);
    assert_eq!(gstr::find_nul(b""), None);
    assert_eq!(gstr::find_nul(b"abc\0def\0"), Some(3));
}
