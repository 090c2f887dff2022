//! Errors that the foreign side reports: a domain, a code within the
//! domain, and a message.

use core::marker::PhantomData;
use vstd::prelude::*;
use vstd::slice::slice_to_vec;
use vstd::utf8::{decode_utf8, valid_utf8};
use crate::enumeration::{from_int, IntrospectedEnum};
use crate::quark::Quark;
use crate::refcount::{Ref, Refcount};
use crate::runtime::Runtime;
use crate::types::gint;
use crate::wrap::RawPtr;
use crate::util::{
    ascii_chars, ascii_to_string, escape_bytestring, escape_bytestring_spec, push_signed_decimal,
    signed_decimal, str_from_utf8, string_from_utf8_lossy, utf8_lossy,
};

verus! {

/// What the foreign side holds of an error.
pub struct GError {
    pub domain: Quark,
    pub code: gint,
    /// The message, without its terminating NUL. It need not be UTF-8.
    pub message: Vec<u8>,
}

/// What an error holds, as mathematical values.
pub struct ErrorData {
    pub domain: Quark,
    pub code: gint,
    pub message: Seq<u8>,
}

/// An error, or the empty place where the foreign side may put one.
pub struct Error {
    raw: Option<GError>,
}

/// An error that is known to be in the domain `T`.
pub struct DomainError<T: Domain> {
    inner: Error,
    marker: PhantomData<T>,
}

/// The code of an error in a domain: a value of the domain's enumeration,
/// or an integer that is none.
#[derive(Clone, Copy, Debug, PartialEq, Eq)]
pub enum Code<T> {
    Known(T),
    Unknown(gint),
}

/// How an error stands to a domain.
#[derive(Clone, Copy, Debug, PartialEq, Eq)]
pub enum Match<T> {
    NotInDomain,
    Known(T),
    Unknown(gint),
}

/// An enumeration of error codes, with the domain they belong to.
pub trait Domain: IntrospectedEnum {
    /// The quark of the domain. It does not change once computed.
    open spec fn domain_quark() -> Quark {
        arbitrary()
    }

    fn domain() -> (quark: Quark)
        ensures
            quark == Self::domain_quark(),
    ;
}

/// The quark of the domain `T`.
pub fn domain<T: Domain>() -> (quark: Quark)
    ensures
        quark == T::domain_quark(),
{
    T::domain()
}

/// An empty place for an error.
pub fn init() -> (err: Error)
    ensures
        err@ is None,
{
    Error { raw: None }
}

/// The text that stands for an error of which neither the message nor the
/// name of the domain is UTF-8.
pub open spec fn unrepresented() -> Seq<char> {
    "GError (message and domain are not represented)"@
}

/// As `unrepresented`, for an error in a domain whose code is unknown too.
pub open spec fn unrepresented_unknown_code() -> Seq<char> {
    "GError (message and domain are not represented; unknown code)"@
}

/// The first of the two texts that is UTF-8, and `fallback` if neither is.
pub open spec fn first_utf8(first: Seq<u8>, second: Seq<u8>, fallback: Seq<char>) -> Seq<char> {
    if valid_utf8(first) {
        decode_utf8(first)
    } else if valid_utf8(second) {
        decode_utf8(second)
    } else {
        fallback
    }
}

/// The text that shows an error with all its parts, given the texts that
/// show the parts.
pub open spec fn debug_text(domain: Seq<char>, code: Seq<char>, message: Seq<char>) -> Seq<char> {
    "GError { domain: \""@ + domain + "\", code: "@ + code + ", message: \""@ + message + "\" }"@
}

/// The text that shows an error with all its parts, given the texts that
/// show the parts.
pub fn debug_string(domain: &str, code: &str, message: &str) -> (text: String)
    ensures
        text@ == debug_text(domain@, code@, message@),
{
    let mut text = "GError { domain: \"".to_owned();
    text.append(domain);
    text.append("\", code: ");
    text.append(code);
    text.append(", message: \"");
    text.append(message);
    text.append("\" }");
    text
}

impl View for GError {
    type V = ErrorData;

    open spec fn view(&self) -> ErrorData {
        ErrorData { domain: self.domain, code: self.code, message: self.message@ }
    }
}

impl View for Error {
    type V = Option<ErrorData>;

    closed spec fn view(&self) -> Option<ErrorData> {
        match self.raw {
            Some(e) => Some(e@),
            None => None,
        }
    }
}

impl Clone for Error {
    /// A copy of the error, with a message of its own.
    fn clone(&self) -> (copy: Error)
        ensures
            copy@ == self@,
    {
        match &self.raw {
            Some(e) => Error {
                raw: Some(
                    GError {
                        domain: e.domain,
                        code: e.code,
                        message: slice_to_vec(e.message.as_slice()),
                    },
                ),
            },
            None => init(),
        }
    }
}

impl Error {
    /// The error that the foreign side holds as `raw`.
    pub fn from_raw(raw: GError) -> (err: Error)
        ensures
            err@ == Some(raw@),
    {
        Error { raw: Some(raw) }
    }

    /// Whether the place holds an error.
    pub fn is_set(&self) -> (set: bool)
        ensures
            set == self@.is_some(),
    {
        self.raw.is_some()
    }

    /// The domain of the error.
    pub fn domain(&self) -> (quark: Quark)
        requires
            self@ is Some,
        ensures
            quark == self@->0.domain,
    {
        match &self.raw {
            Some(e) => e.domain,
            None => Quark(0),
        }
    }

    /// The code of the error, as the integer it is held as.
    pub fn code(&self) -> (code: gint)
        requires
            self@ is Some,
        ensures
            code == self@->0.code,
    {
        match &self.raw {
            Some(e) => e.code,
            None => 0,
        }
    }

    /// Whether this is the error `code` of the domain `T`.
    pub fn matches<T: Domain>(&self, code: T) -> (same: bool)
        requires
            self@ is Some,
        ensures
            same == (self@->0.domain == T::domain_quark() && self@->0.code == code.int_value()),
    {
        let wanted = code.to_int();
        if self.domain() == domain::<T>() {
            if let Ok(own_code) = from_int::<T>(self.code()) {
                return own_code.to_int() == wanted;
            }
        }
        false
    }

    /// The domain and the code: what tells errors apart, whatever their
    /// messages say.
    pub fn key(&self) -> (key: (Quark, gint))
        requires
            self@ is Some,
        ensures
            key == (self@->0.domain, self@->0.code),
    {
        (self.domain(), self.code())
    }

    /// Whether the error is in the domain `T`.
    pub fn in_domain<T: Domain>(&self) -> (within: bool)
        requires
            self@ is Some,
        ensures
            within == (self@->0.domain == T::domain_quark()),
    {
        self.domain() == domain::<T>()
    }

    /// The error as one of the domain `T`, if it is in that domain, and the
    /// error itself if it is not.
    pub fn into_domain<T: Domain>(self) -> (res: Result<DomainError<T>, Error>)
        requires
            self@ is Some,
        ensures
            res is Ok <==> self@->0.domain == T::domain_quark(),
            res matches Ok(err) ==> err@ == self@->0,
            res matches Err(err) ==> err == self,
    {
        if self.in_domain::<T>() {
            Ok(DomainError { inner: self, marker: PhantomData })
        } else {
            Err(self)
        }
    }

    /// The message, if it is UTF-8.
    pub fn message(&self) -> (text: Option<&str>)
        requires
            self@ is Some,
        ensures
            text.is_some() == valid_utf8(self@->0.message),
            text matches Some(t) ==> t@ == decode_utf8(self@->0.message),
    {
        str_from_utf8(self.message_bytes())
    }

    /// The message as the bytes it is held as.
    pub fn message_bytes(&self) -> (bytes: &[u8])
        requires
            self@ is Some,
        ensures
            bytes@ == self@->0.message,
    {
        match &self.raw {
            Some(e) => e.message.as_slice(),
            None => &[],
        }
    }

    /// A short text for the error: the message if it is UTF-8, else the
    /// name of the domain if that is, else a fixed text. The runtime must
    /// know the quark of the domain.
    pub fn description<R: Runtime>(&self, rt: &R) -> (text: String)
        requires
            self@ is Some,
            rt.state().quark_name(self@->0.domain) is Some,
        ensures
            text@ == first_utf8(
                self@->0.message,
                rt.state().quark_name(self@->0.domain)->0,
                unrepresented(),
            ),
    {
        if let Some(s) = self.message() {
            return s.to_owned();
        }
        let name = self.domain().to_bytes(rt);
        match str_from_utf8(name.as_slice()) {
            Some(s) => s.to_owned(),
            None => "GError (message and domain are not represented)".to_owned(),
        }
    }

    /// The message as text, with a replacement character wherever it is no
    /// UTF-8.
    pub fn to_string(&self) -> (text: String)
        requires
            self@ is Some,
        ensures
            text@ == utf8_lossy(self@->0.message),
            valid_utf8(self@->0.message) ==> text@ == decode_utf8(self@->0.message),
    {
        string_from_utf8_lossy(self.message_bytes())
    }

    /// The error with all its parts, for a developer to read: the name of
    /// the domain and the message as escaped byte strings, and the code as
    /// a number. The runtime must know the quark of the domain.
    pub fn debug<R: Runtime>(&self, rt: &R) -> (text: String)
        requires
            self@ is Some,
            rt.state().quark_name(self@->0.domain) is Some,
        ensures
            text@ == debug_text(
                escape_bytestring_spec(rt.state().quark_name(self@->0.domain)->0),
                ascii_chars(signed_decimal(self@->0.code as int)),
                escape_bytestring_spec(self@->0.message),
            ),
    {
        let (domain, code) = self.key();
        let name = escape_bytestring(domain.to_bytes(rt).as_slice());
        let message = escape_bytestring(self.message_bytes());
        let mut digits: Vec<u8> = Vec::new();
        push_signed_decimal(&mut digits, code as i64);
        let number = ascii_to_string(digits.as_slice());
        debug_string(name.as_str(), number.as_str(), message.as_str())
    }
}

/// What a foreign call has given that returns an object and may report an
/// error: the error if the call has set one, and else a handle that takes
/// over the reference on the object.
pub fn ref_or_error<T: Refcount>(ptr: RawPtr, err: Error) -> (res: Result<Ref<T>, Error>)
    ensures
        res is Err <==> err@ is Some,
        res matches Ok(r) ==> r.ptr() == ptr,
        res matches Err(e) ==> e == err,
{
    if err.is_set() {
        Err(err)
    } else {
        Ok(Ref::from_raw(ptr))
    }
}

/// How an error stands to the domain `T`, given its domain and its code.
pub open spec fn match_of<T: Domain>(data: ErrorData) -> Match<T> {
    if data.domain != T::domain_quark() {
        Match::NotInDomain
    } else if T::is_known(data.code) {
        Match::Known(value_of::<T>(data.code))
    } else {
        Match::Unknown(data.code)
    }
}

impl<T: Domain> Match<T> {
    /// How the error stands to the domain `T`: outside of it, or in it
    /// with a code that is a value of `T`, or in it with another code.
    pub fn from_error(err: &Error) -> (m: Match<T>)
        requires
            err@ is Some,
        ensures
            m == match_of::<T>(err@->0),
    {
        let (domain, code) = err.key();
        if domain != T::domain() {
            return Match::NotInDomain;
        }
        match from_int::<T>(code) {
            Ok(v) => Match::Known(v),
            Err(_) => Match::Unknown(code),
        }
    }
}

/// The value of the enumeration `T` that the integer stands for, where it
/// stands for one.
pub open spec fn value_of<T: IntrospectedEnum>(v: gint) -> T {
    choose|value: T| value.int_value() == v
}

/// What the code of an error in the domain `T` is, given the integer it is
/// held as.
pub open spec fn code_of<T: IntrospectedEnum>(v: gint) -> Code<T> {
    if T::is_known(v) {
        Code::Known(value_of::<T>(v))
    } else {
        Code::Unknown(v)
    }
}

/// What `{:?}` of std makes of a string slice.
pub uninterp spec fn str_debug(text: Seq<char>) -> Seq<char>;

/// The `Debug` form that std gives a string slice: the text between
/// quotes, with escapes for what would not print.
#[verifier::external_body]
fn debug_quoted(text: &str) -> (quoted: String)
    ensures
        quoted@ == str_debug(text@),
{
    format!("{:?}", text)
}

impl<T: Domain> View for DomainError<T> {
    type V = ErrorData;

    closed spec fn view(&self) -> ErrorData {
        self.inner@->0
    }
}

impl<T: Domain> Clone for DomainError<T> {
    fn clone(&self) -> (copy: DomainError<T>)
        ensures
            copy@ == self@,
    {
        proof {
            use_type_invariant(self);
        }
        DomainError { inner: self.inner.clone(), marker: PhantomData }
    }
}

impl<T: Domain> DomainError<T> {
    #[verifier::type_invariant]
    spec fn in_its_domain(&self) -> bool {
        self.inner@ is Some && self.inner@->0.domain == T::domain_quark()
    }

    /// The domain of the error, which is that of `T`.
    pub fn domain(&self) -> (quark: Quark)
        ensures
            quark == self@.domain,
            quark == T::domain_quark(),
    {
        proof {
            use_type_invariant(self);
        }
        self.inner.domain()
    }

    /// The code of the error: the value of `T` that it stands for, or the
    /// integer itself where it stands for none.
    pub fn code(&self) -> (code: Code<T>)
        ensures
            code == code_of::<T>(self@.code),
    {
        proof {
            use_type_invariant(self);
        }
        let raw = self.inner.code();
        match from_int::<T>(raw) {
            Ok(domain_code) => Code::Known(domain_code),
            Err(_) => Code::Unknown(raw),
        }
    }

    /// The error without what is known of its domain.
    pub fn into_error(self) -> (err: Error)
        ensures
            err@ == Some(self@),
    {
        proof {
            use_type_invariant(&self);
        }
        self.inner
    }

    /// A short text for the error: the message if it is UTF-8, else the
    /// name of the code if the code is known, else the name of the domain
    /// if that is UTF-8, else a fixed text. The runtime must know the quark
    /// of the domain.
    pub fn description<R: Runtime>(&self, rt: &R) -> (text: String)
        requires
            rt.state().quark_name(self@.domain) is Some,
        ensures
            text@ == (if valid_utf8(self@.message) {
                decode_utf8(self@.message)
            } else if T::is_known(self@.code) {
                value_of::<T>(self@.code).value_name()
            } else {
                first_utf8(
                    self@.message,
                    rt.state().quark_name(self@.domain)->0,
                    unrepresented_unknown_code(),
                )
            }),
    {
        proof {
            use_type_invariant(self);
        }
        if let Some(s) = self.inner.message() {
            return s.to_owned();
        }
        if let Code::Known(code) = self.code() {
            return code.name().to_owned();
        }
        let name = self.inner.domain().to_bytes(rt);
        match str_from_utf8(name.as_slice()) {
            Some(s) => s.to_owned(),
            None => "GError (message and domain are not represented; unknown code)".to_owned(),
        }
    }

    /// The message as text, with a replacement character wherever it is no
    /// UTF-8.
    pub fn to_string(&self) -> (text: String)
        ensures
            text@ == utf8_lossy(self@.message),
            valid_utf8(self@.message) ==> text@ == decode_utf8(self@.message),
    {
        proof {
            use_type_invariant(self);
        }
        self.inner.to_string()
    }

    /// The error with all its parts, for a developer to read: the name of
    /// the domain and the message as escaped byte strings, and the code by
    /// its name, as std shows a string, or as a number where it is unknown.
    /// The runtime must know the quark of the domain.
    pub fn debug<R: Runtime>(&self, rt: &R) -> (text: String)
        requires
            rt.state().quark_name(self@.domain) is Some,
        ensures
            text@ == debug_text(
                escape_bytestring_spec(rt.state().quark_name(self@.domain)->0),
                if T::is_known(self@.code) {
                    str_debug(value_of::<T>(self@.code).value_name())
                } else {
                    ascii_chars(signed_decimal(self@.code as int))
                },
                escape_bytestring_spec(self@.message),
            ),
    {
        proof {
            use_type_invariant(self);
        }
        let name = escape_bytestring(self.inner.domain().to_bytes(rt).as_slice());
        let message = escape_bytestring(self.inner.message_bytes());
        match self.code() {
            Code::Known(code) => {
                let quoted = debug_quoted(code.name());
                debug_string(name.as_str(), quoted.as_str(), message.as_str())
            },
            Code::Unknown(int_code) => {
                let mut digits: Vec<u8> = Vec::new();
                push_signed_decimal(&mut digits, int_code as i64);
                let number = ascii_to_string(digits.as_slice());
                debug_string(name.as_str(), number.as_str(), message.as_str())
            },
        }
    }
}

impl<T: Domain> From<DomainError<T>> for Error {
    fn from(err: DomainError<T>) -> (plain: Error)
        ensures
            plain@ == Some(err@),
    {
        proof {
            use_type_invariant(&err);
        }
        err.inner
    }
}

impl<T: Domain> vstd::std_specs::convert::FromSpecImpl<DomainError<T>> for Error {
    open spec fn obeys_from_spec() -> bool {
        true
    }

    closed spec fn from_spec(err: DomainError<T>) -> Error {
        err.inner
    }
}

impl<T> Code<T> {
    /// The code as a value of the enumeration, if it is one.
    pub fn known(self) -> (value: Option<T>)
        ensures
            value == (match self {
                Code::Known(code) => Some(code),
                Code::Unknown(_) => None::<T>,
            }),
    {
        match self {
            Code::Known(code) => Some(code),
            Code::Unknown(_) => None,
        }
    }
}

impl<T: IntrospectedEnum> Code<T> {
    /// Whether two codes are the same: the same value of the enumeration,
    /// or the same integer that is none.
    pub fn same(&self, other: &Code<T>) -> (same: bool)
        ensures
            same == (match (*self, *other) {
                (Code::Known(a), Code::Known(b)) => a.int_value() == b.int_value(),
                (Code::Unknown(a), Code::Unknown(b)) => a == b,
                _ => false,
            }),
    {
        match (self, other) {
            (Code::Known(a), Code::Known(b)) => a.to_int() == b.to_int(),
            (Code::Unknown(a), Code::Unknown(b)) => *a == *b,
            _ => false,
        }
    }
}

} // verus!
