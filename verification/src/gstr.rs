//! Strings as the foreign side holds them: bytes up to a terminating NUL.

use vstd::prelude::*;
use vstd::slice::{slice_subrange, slice_to_vec};
use vstd::string::StringSliceAdditionalSpecFns;
use vstd::utf8::{decode_utf8, valid_utf8};
use crate::util::{bytes_eq, str_from_utf8};

verus! {

/// The bytes hold a NUL, so that they can be read as a C string.
pub open spec fn is_c_str(bytes: Seq<u8>) -> bool {
    bytes.contains(0u8)
}

/// The C string that the bytes hold: what comes before the first NUL.
pub open spec fn c_str(bytes: Seq<u8>) -> Seq<u8>
    decreases bytes.len(),
{
    if bytes.len() == 0 || bytes[0] == 0 {
        Seq::empty()
    } else {
        seq![bytes[0]] + c_str(bytes.drop_first())
    }
}

/// A C string is the part of its bytes before the first NUL, and holds no
/// NUL itself.
pub proof fn lemma_c_str(bytes: Seq<u8>)
    requires
        is_c_str(bytes),
    ensures
        c_str(bytes).len() < bytes.len(),
        bytes[c_str(bytes).len() as int] == 0,
        c_str(bytes) == bytes.take(c_str(bytes).len() as int),
        forall|i: int| 0 <= i < c_str(bytes).len() ==> bytes[i] != 0,
    decreases bytes.len(),
{
    let nul = choose|i: int| 0 <= i < bytes.len() && bytes[i] == 0u8;
    if bytes[0] != 0 {
        let rest = bytes.drop_first();
        assert(rest[nul - 1] == 0u8);
        lemma_c_str(rest);
        let n = c_str(rest).len() as int;
        assert(c_str(bytes) =~= bytes.take(n + 1));
        assert forall|i: int| 0 <= i < c_str(bytes).len() implies bytes[i] != 0 by {
            if i > 0 {
                assert(bytes[i] == rest[i - 1]);
            }
        }
    } else {
        assert(c_str(bytes) =~= bytes.take(0));
    }
}

/// The first NUL alone decides where a C string ends.
pub proof fn lemma_c_str_ends_at(bytes: Seq<u8>, n: int)
    requires
        0 <= n < bytes.len(),
        bytes[n] == 0,
        forall|i: int| 0 <= i < n ==> bytes[i] != 0,
    ensures
        is_c_str(bytes),
        c_str(bytes) == bytes.take(n),
{
    lemma_c_str(bytes);
    let m = c_str(bytes).len() as int;
    if m < n {
        assert(bytes[m] != 0);
    }
}

/// Reading on from inside a C string gives the rest of it.
pub proof fn lemma_c_str_skip(bytes: Seq<u8>, k: int)
    requires
        is_c_str(bytes),
        0 <= k <= c_str(bytes).len(),
    ensures
        is_c_str(bytes.skip(k)),
        c_str(bytes.skip(k)) == c_str(bytes).skip(k),
{
    lemma_c_str(bytes);
    let n = c_str(bytes).len() as int;
    lemma_c_str_ends_at(bytes.skip(k), n - k);
    assert(bytes.skip(k).take(n - k) =~= bytes.take(n).skip(k));
}

/// The length of the C string that the bytes hold.
pub fn c_str_len(bytes: &[u8]) -> (n: usize)
    requires
        is_c_str(bytes@),
    ensures
        n == c_str(bytes@).len(),
        n < bytes@.len(),
{
    proof {
        lemma_c_str(bytes@);
    }
    let mut n: usize = 0;
    while bytes[n] != 0
        invariant
            is_c_str(bytes@),
            n <= c_str(bytes@).len() < bytes@.len(),
            bytes@[c_str(bytes@).len() as int] == 0,
            forall|i: int| 0 <= i < c_str(bytes@).len() ==> bytes@[i] != 0,
        decreases bytes@.len() - n,
    {
        n = n + 1;
    }
    n
}

/// The bytes end in a NUL.
pub open spec fn ends_in_nul(bytes: Seq<u8>) -> bool {
    bytes.len() > 0 && bytes.last() == 0
}

/// Where the first NUL stands in the bytes, if there is one.
pub fn find_nul(bytes: &[u8]) -> (at: Option<usize>)
    ensures
        at.is_some() == is_c_str(bytes@),
        at matches Some(n) ==> n == c_str(bytes@).len(),
{
    let mut i: usize = 0;
    while i < bytes.len()
        invariant
            i <= bytes@.len(),
            forall|j: int| 0 <= j < i ==> bytes@[j] != 0,
        decreases bytes@.len() - i,
    {
        if bytes[i] == 0 {
            proof {
                lemma_c_str_ends_at(bytes@, i as int);
            }
            return Some(i);
        }
        i = i + 1;
    }
    None
}

/// A C string that the foreign side has allocated and handed over, to be
/// freed with the value.
pub struct OwnedGStr {
    data: Vec<u8>,
}

impl OwnedGStr {
    #[verifier::type_invariant]
    spec fn wf(&self) -> bool {
        is_c_str(self.data@)
    }

    /// The bytes of the string, without the NUL.
    pub closed spec fn view(&self) -> Seq<u8> {
        c_str(self.data@)
    }

    /// Takes over a buffer, which must hold a NUL: nothing checks it.
    pub fn from_ptr(data: Vec<u8>) -> (s: OwnedGStr)
        requires
            is_c_str(data@),
        ensures
            s@ == c_str(data@),
    {
        OwnedGStr { data }
    }

    /// The bytes of the string, without the NUL.
    pub fn to_bytes(&self) -> (bytes: &[u8])
        ensures
            bytes@ == self@,
    {
        proof {
            use_type_invariant(self);
            lemma_c_str(self.data@);
        }
        let n = c_str_len(self.data.as_slice());
        let content = slice_subrange(self.data.as_slice(), 0, n);
        assert(content@ =~= c_str(self.data@));
        content
    }

    /// The buffer of the string, which ends behind its NUL or later.
    pub fn as_ptr(&self) -> (bytes: &[u8])
        ensures
            is_c_str(bytes@),
            c_str(bytes@) == self@,
    {
        proof {
            use_type_invariant(self);
        }
        self.data.as_slice()
    }

    /// The string as text, if it is UTF-8.
    pub fn parse_as_utf8(&self) -> (text: Option<&str>)
        ensures
            text.is_some() == valid_utf8(self@),
            text matches Some(t) ==> t@ == decode_utf8(self@),
    {
        str_from_utf8(self.to_bytes())
    }

    /// Whether two strings hold the same bytes.
    pub fn eq(&self, other: &OwnedGStr) -> (same: bool)
        ensures
            same == (self@ == other@),
    {
        bytes_eq(self.to_bytes(), other.to_bytes())
    }
}

impl Clone for OwnedGStr {
    /// A copy of the string in a buffer of its own.
    fn clone(&self) -> (copy: OwnedGStr)
        ensures
            copy@ == self@,
    {
        proof {
            use_type_invariant(self);
        }
        OwnedGStr { data: slice_to_vec(self.data.as_slice()) }
    }
}

/// UTF-8 text in a NUL-terminated buffer that somebody else holds.
#[derive(Clone, Copy)]
pub struct Utf8<'a> {
    inner: &'a [u8],
}

impl<'a> Utf8<'a> {
    #[verifier::type_invariant]
    spec fn wf(&self) -> bool {
        is_c_str(self.inner@) && valid_utf8(c_str(self.inner@))
    }

    /// The characters of the text.
    pub closed spec fn view(&self) -> Seq<char> {
        decode_utf8(c_str(self.inner@))
    }

    /// The bytes of the text, without the NUL.
    pub closed spec fn bytes(&self) -> Seq<u8> {
        c_str(self.inner@)
    }

    /// The buffer of the text, which ends behind its NUL or later.
    pub fn as_ptr(&self) -> (bytes: &'a [u8])
        ensures
            is_c_str(bytes@),
            c_str(bytes@) == self.bytes(),
    {
        proof {
            use_type_invariant(self);
        }
        self.inner
    }

    /// The text as a string slice.
    pub fn to_str(&self) -> (text: &'a str)
        ensures
            text@ == self@,
    {
        proof {
            use_type_invariant(self);
            lemma_c_str(self.inner@);
        }
        let n = c_str_len(self.inner);
        let content = slice_subrange(self.inner, 0, n);
        assert(content@ =~= c_str(self.inner@));
        match str_from_utf8(content) {
            Some(text) => text,
            None => "",
        }
    }

    /// The text of a string that ends in a NUL, up to its first NUL.
    pub fn from_static_str(s: &'static str) -> (text: Utf8<'static>)
        requires
            ends_in_nul(s.spec_bytes()),
        ensures
            text.bytes() == c_str(s.spec_bytes()),
    {
        let bytes = s.as_bytes();
        proof {
            assert(bytes@[bytes@.len() - 1] == 0u8);
            vstd::utf8::encode_utf8_valid_utf8(s@);
            crate::utf8::lemma_utf8_c_str(bytes@);
        }
        Utf8 { inner: bytes }
    }

    /// The text in a buffer, which must hold a C string of well-formed
    /// UTF-8: nothing validates it.
    pub fn from_ptr(bytes: &'a [u8]) -> (text: Utf8<'a>)
        requires
            is_c_str(bytes@),
            valid_utf8(c_str(bytes@)),
        ensures
            text.bytes() == c_str(bytes@),
    {
        Utf8 { inner: bytes }
    }
}

/// A string could not be handed to the foreign side, because it holds a
/// NUL.
#[derive(Clone, Copy, PartialEq, Eq, Structural, Debug)]
pub struct NulError {
    position: usize,
}

impl NulError {
    pub closed spec fn spec_nul_position(&self) -> usize {
        self.position
    }

    /// Where the first NUL stands in the string.
    #[verifier::when_used_as_spec(spec_nul_position)]
    pub fn nul_position(&self) -> (position: usize)
        ensures
            position == self.spec_nul_position(),
    {
        self.position
    }
}

/// UTF-8 text in a NUL-terminated buffer of its own, ready to be handed to
/// the foreign side.
pub struct Utf8String {
    inner: Vec<u8>,
}

impl Utf8String {
    #[verifier::type_invariant]
    spec fn wf(&self) -> bool {
        &&& self.inner@.len() > 0
        &&& self.inner@.last() == 0
        &&& forall|i: int| 0 <= i < self.inner@.len() - 1 ==> self.inner@[i] != 0
        &&& valid_utf8(self.inner@.drop_last())
    }

    /// The bytes of the text, without the NUL.
    pub closed spec fn bytes(&self) -> Seq<u8> {
        self.inner@.drop_last()
    }

    /// The characters of the text.
    pub closed spec fn view(&self) -> Seq<char> {
        decode_utf8(self.inner@.drop_last())
    }

    /// Copies the text into a buffer of its own and ends it with a NUL. A
    /// text that holds a NUL is refused, with the place of its first NUL.
    pub fn new(text: &str) -> (res: Result<Utf8String, NulError>)
        ensures
            res is Ok <==> !is_c_str(text.spec_bytes()),
            res matches Ok(s) ==> s@ == text@ && s.bytes() == text.spec_bytes(),
            res matches Err(e) ==> e.nul_position() == c_str(text.spec_bytes()).len(),
    {
        let bytes = text.as_bytes();
        match find_nul(bytes) {
            Some(position) => Err(NulError { position }),
            None => {
                let mut inner = slice_to_vec(bytes);
                inner.push(0);
                proof {
                    assert(inner@.drop_last() =~= bytes@);
                    vstd::utf8::encode_utf8_valid_utf8(text@);
                    vstd::utf8::encode_utf8_decode_utf8(text@);
                    assert forall|i: int| 0 <= i < inner@.len() - 1 implies inner@[i] != 0 by {
                        assert(bytes@.contains(bytes@[i]));
                    }
                }
                Ok(Utf8String { inner })
            },
        }
    }

    /// The text, borrowed from the buffer.
    pub fn deref<'a>(&'a self) -> (text: Utf8<'a>)
        ensures
            text@ == self@,
            text.bytes() == self.bytes(),
    {
        proof {
            use_type_invariant(self);
            lemma_c_str_ends_at(self.inner@, self.inner@.len() - 1);
            assert(self.inner@.take(self.inner@.len() - 1) =~= self.inner@.drop_last());
        }
        Utf8::from_ptr(self.inner.as_slice())
    }

    /// The buffer of the text, which ends with its NUL.
    pub fn as_ptr(&self) -> (bytes: &[u8])
        ensures
            bytes@ == self.bytes().push(0u8),
    {
        proof {
            use_type_invariant(self);
            assert(self.inner@ =~= self.inner@.drop_last().push(0u8));
        }
        self.inner.as_slice()
    }
}

} // verus!
