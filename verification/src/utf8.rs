//! UTF-8 text in NUL-terminated buffers that the foreign side hands out.

use vstd::prelude::*;
use vstd::slice::{slice_subrange, slice_to_vec};
use vstd::string::StringSliceAdditionalSpecFns;
use vstd::utf8::*;
use crate::gstr::{c_str, c_str_len, is_c_str, lemma_c_str, lemma_c_str_ends_at, lemma_c_str_skip};
use crate::util::{bytes_eq, char_from_u32, str_from_utf8};

verus! {

/// The bytes hold a C string that is well-formed UTF-8.
pub open spec fn is_utf8_c_str(bytes: Seq<u8>) -> bool {
    is_c_str(bytes) && valid_utf8(c_str(bytes))
}

/// The characters of the C string that the bytes hold.
pub open spec fn c_str_chars(bytes: Seq<u8>) -> Seq<char> {
    decode_utf8(c_str(bytes))
}

/// In UTF-8 text that holds a NUL, what comes before the first NUL is
/// UTF-8 text too.
pub proof fn lemma_utf8_c_str(bytes: Seq<u8>)
    requires
        valid_utf8(bytes),
        is_c_str(bytes),
    ensures
        is_utf8_c_str(bytes),
{
    lemma_c_str(bytes);
    let n = c_str(bytes).len() as int;
    is_char_boundary_iff_not_is_continuation_byte(bytes, n);
    valid_utf8_split(bytes, n);
}

/// Well-formed UTF-8 texts with the same characters are the same bytes.
pub proof fn lemma_decode_is_injective(a: Seq<u8>, b: Seq<u8>)
    requires
        valid_utf8(a),
        valid_utf8(b),
        decode_utf8(a) == decode_utf8(b),
    ensures
        a == b,
{
    decode_utf8_encode_utf8(a);
    decode_utf8_encode_utf8(b);
}

/// Whether the bytes hold a NUL.
pub fn has_nul(bytes: &[u8]) -> (found: bool)
    ensures
        found == is_c_str(bytes@),
{
    let mut i: usize = 0;
    while i < bytes.len()
        invariant
            i <= bytes@.len(),
            forall|j: int| 0 <= j < i ==> bytes@[j] != 0,
        decreases bytes@.len() - i,
    {
        if bytes[i] == 0 {
            return true;
        }
        i = i + 1;
    }
    false
}

/// Whether the bytes hold a C string that is well-formed UTF-8: what the
/// buffers of this module must hold.
pub fn validate(bytes: &[u8]) -> (valid: bool)
    ensures
        valid == is_utf8_c_str(bytes@),
{
    if !has_nul(bytes) {
        return false;
    }
    proof {
        lemma_c_str(bytes@);
    }
    let n = c_str_len(bytes);
    let content = slice_subrange(bytes, 0, n);
    assert(content@ =~= c_str(bytes@));
    str_from_utf8(content).is_some()
}

/// The text of the C string in `data` from `start` on, as a string slice.
fn c_str_at(data: &[u8], start: usize) -> (text: &str)
    requires
        start <= data@.len(),
        is_utf8_c_str(data@.skip(start as int)),
    ensures
        text@ == c_str_chars(data@.skip(start as int)),
{
    let tail = slice_subrange(data, start, data.len());
    assert(tail@ =~= data@.skip(start as int));
    proof {
        lemma_c_str(tail@);
    }
    let n = c_str_len(tail);
    let content = slice_subrange(tail, 0, n);
    assert(content@ =~= c_str(tail@));
    match str_from_utf8(content) {
        Some(text) => text,
        None => "",
    }
}

/// The six payload bits of a continuation byte.
fn utf8_cont_bits(byte: u8) -> (bits: u32)
    ensures
        bits == continuation_bits(byte),
{
    (byte & 0x3F) as u32
}

/// A cursor over the characters of a NUL-terminated UTF-8 buffer.
pub struct UTF8Chars<'a> {
    data: &'a [u8],
    pos: usize,
}

impl<'a> UTF8Chars<'a> {
    /// The bytes from the cursor on.
    pub closed spec fn tail(&self) -> Seq<u8> {
        self.data@.skip(self.pos as int)
    }

    #[verifier::type_invariant]
    spec fn wf(&self) -> bool {
        self.pos <= self.data@.len() && is_utf8_c_str(self.tail())
    }

    /// The characters that are still to come.
    pub closed spec fn view(&self) -> Seq<char> {
        c_str_chars(self.tail())
    }

    /// A cursor at the start of `data`, which must hold a C string of
    /// well-formed UTF-8: the cursor does not validate what it reads.
    pub fn wrap(data: &'a [u8]) -> (chars: UTF8Chars<'a>)
        requires
            is_utf8_c_str(data@),
        ensures
            chars@ == c_str_chars(data@),
    {
        assert(data@.skip(0) =~= data@);
        UTF8Chars { data, pos: 0 }
    }

    /// The characters that are still to come, as a string.
    pub fn to_string(&self) -> (text: String)
        ensures
            text@ == self@,
    {
        proof {
            use_type_invariant(self);
        }
        c_str_at(self.data, self.pos).to_owned()
    }

    /// Calls `f` with the bytes from the cursor on, which end in a NUL.
    pub fn with_c_str<T, F: FnOnce(&[u8]) -> T>(&self, f: F) -> (out: T)
        requires
            forall|bytes: &[u8]| c_str_chars(bytes@) == self@ ==> call_requires(f, (bytes,)),
        ensures
            exists|bytes: &[u8]| c_str_chars(bytes@) == self@ && call_ensures(f, (bytes,), out),
    {
        proof {
            use_type_invariant(self);
        }
        let tail = slice_subrange(self.data, self.pos, self.data.len());
        assert(tail@ =~= self.tail());
        f(tail)
    }

    /// Decodes the character at the cursor and moves past it; at the
    /// terminating NUL there is none, and the cursor stays.
    pub fn next(&mut self) -> (c: Option<char>)
        ensures
            old(self)@.len() == 0 ==> c.is_none() && final(self)@ == old(self)@,
            old(self)@.len() > 0 ==> c == Some(old(self)@[0]) && final(self)@ == old(self)@.drop_first(),
    {
        proof {
            use_type_invariant(&*self);
            lemma_c_str(self.tail());
        }
        let ghost tail = self.tail();
        let ghost text = c_str(tail);
        let p = self.pos;
        let first_byte = self.data[p];
        assert(first_byte == tail[0]);
        if first_byte == 0 {
            assert(text.len() == 0);
            return None;
        }
        assert(text.len() > 0 && text[0] == first_byte);
        assert(valid_first_scalar(text));
        assert(forall|i: int| 0 <= i < text.len() ==> text[i] == self.data@[p + i]);
        let ghost width = length_of_first_scalar(text);
        let wc: u32;
        let len: usize;
        if first_byte < 0xC0 {
            assert(first_byte & 0x7F == first_byte) by (bit_vector)
                requires
                    first_byte <= 0x7F,
            ;
            wc = first_byte as u32;
            len = 1;
        } else {
            let c1 = utf8_cont_bits(self.data[p + 1]);
            if first_byte < 0xE0 {
                wc = (((first_byte & 0x1F) as u32) << 6) | c1;
                len = 2;
                let ghost b1 = text[1];
                assert((((first_byte & 0x1F) as u32) << 6) | ((b1 & 0x3F) as u32) < 0x800)
                    by (bit_vector);
            } else {
                let c2 = utf8_cont_bits(self.data[p + 2]);
                if first_byte < 0xF0 {
                    wc = (((first_byte & 0x0F) as u32) << 12) | (c1 << 6) | c2;
                    len = 3;
                    let ghost b1 = text[1];
                    let ghost b2 = text[2];
                    assert((((first_byte & 0x0F) as u32) << 12) | (((b1 & 0x3F) as u32) << 6) | ((b2
                        & 0x3F) as u32) < 0x10000) by (bit_vector);
                } else {
                    let c3 = utf8_cont_bits(self.data[p + 3]);
                    wc = (((first_byte & 0x07) as u32) << 18) | (c1 << 12) | (c2 << 6) | c3;
                    len = 4;
                }
            }
        }
        assert(len == width);
        assert(wc == decode_first_scalar(text));
        assert(is_scalar(wc));
        proof {
            lemma_c_str_skip(tail, width);
            assert(tail.skip(width) =~= self.data@.skip(p + width));
            assert(c_str(tail).skip(width) =~= pop_first_scalar(text));
        }
        self.pos = p + len;
        char_from_u32(wc)
    }
}

/// A NUL-terminated buffer of UTF-8 text that the foreign side has handed
/// over, whose length has not been taken yet.
pub struct UTF8Buf {
    data: Vec<u8>,
}

/// A NUL-terminated buffer of UTF-8 text with its length in bytes.
pub struct UTF8Str {
    buf: UTF8Buf,
    len: usize,
}

impl UTF8Buf {
    #[verifier::type_invariant]
    spec fn wf(&self) -> bool {
        is_utf8_c_str(self.data@)
    }

    /// The bytes of the text, without the NUL.
    pub closed spec fn bytes(&self) -> Seq<u8> {
        c_str(self.data@)
    }

    /// The characters of the text.
    pub closed spec fn view(&self) -> Seq<char> {
        c_str_chars(self.data@)
    }

    /// Takes over a buffer, which must hold a C string of well-formed
    /// UTF-8: nothing validates it.
    pub fn wrap(data: Vec<u8>) -> (buf: UTF8Buf)
        requires
            is_utf8_c_str(data@),
        ensures
            buf@ == c_str_chars(data@),
            buf.bytes() == c_str(data@),
    {
        UTF8Buf { data }
    }

    /// A cursor over the characters.
    pub fn chars<'a>(&'a self) -> (chars: UTF8Chars<'a>)
        ensures
            chars@ == self@,
    {
        proof {
            use_type_invariant(self);
        }
        UTF8Chars::wrap(self.data.as_slice())
    }

    /// Takes the length of the text, and gives the buffer with it.
    pub fn into_collection(self) -> (text: UTF8Str)
        ensures
            text@ == self@,
            text.bytes() == self.bytes(),
    {
        proof {
            use_type_invariant(&self);
        }
        let len = c_str_len(self.data.as_slice());
        UTF8Str { buf: self, len }
    }

    pub fn to_string(&self) -> (text: String)
        ensures
            text@ == self@,
    {
        self.chars().to_string()
    }

    pub fn into_string(self) -> (text: String)
        ensures
            text@ == self@,
    {
        self.to_string()
    }

    pub fn is_empty(&self) -> (empty: bool)
        ensures
            empty == (self@.len() == 0),
            empty == (self.bytes().len() == 0),
    {
        proof {
            use_type_invariant(self);
            lemma_c_str(self.data@);
        }
        self.data[0] == 0
    }

    /// Calls `f` with the bytes of the buffer, which end in a NUL.
    pub fn with_c_str<T, F: FnOnce(&[u8]) -> T>(&self, f: F) -> (out: T)
        requires
            forall|bytes: &[u8]| c_str_chars(bytes@) == self@ ==> call_requires(f, (bytes,)),
        ensures
            exists|bytes: &[u8]| c_str_chars(bytes@) == self@ && call_ensures(f, (bytes,), out),
    {
        f(self.data.as_slice())
    }
}

impl Clone for UTF8Buf {
    /// A copy of the text in a buffer of its own.
    fn clone(&self) -> (copy: UTF8Buf)
        ensures
            copy@ == self@,
            copy.bytes() == self.bytes(),
    {
        proof {
            use_type_invariant(self);
        }
        UTF8Buf { data: slice_to_vec(self.data.as_slice()) }
    }
}

impl UTF8Str {
    #[verifier::type_invariant]
    spec fn wf(&self) -> bool {
        self.len == self.buf.bytes().len()
    }

    /// The bytes of the text, without the NUL.
    pub closed spec fn bytes(&self) -> Seq<u8> {
        self.buf.bytes()
    }

    /// The characters of the text.
    pub closed spec fn view(&self) -> Seq<char> {
        self.buf@
    }

    /// Takes over a buffer with the length of the text in it, of which
    /// nothing is validated: the buffer must hold well-formed UTF-8 that a
    /// NUL ends after exactly `len` bytes.
    pub fn wrap(data: Vec<u8>, len: usize) -> (text: UTF8Str)
        requires
            is_utf8_c_str(data@),
            len == c_str(data@).len(),
        ensures
            text@ == c_str_chars(data@),
            text.bytes() == c_str(data@),
    {
        UTF8Str { buf: UTF8Buf::wrap(data), len }
    }

    /// A cursor over the characters.
    pub fn chars<'a>(&'a self) -> (chars: UTF8Chars<'a>)
        ensures
            chars@ == self@,
    {
        self.buf.chars()
    }

    /// The length of the text in bytes.
    pub fn len(&self) -> (len: usize)
        ensures
            len == self.bytes().len(),
    {
        proof {
            use_type_invariant(self);
        }
        self.len
    }

    pub fn is_empty(&self) -> (empty: bool)
        ensures
            empty == (self.bytes().len() == 0),
    {
        proof {
            use_type_invariant(self);
        }
        self.len == 0
    }

    /// The text as a string slice, borrowed from the buffer.
    pub fn as_slice<'a>(&'a self) -> (text: &'a str)
        ensures
            text@ == self@,
    {
        proof {
            use_type_invariant(self);
            use_type_invariant(&self.buf);
            lemma_c_str(self.buf.data@);
        }
        let content = slice_subrange(self.buf.data.as_slice(), 0, self.len);
        assert(content@ =~= c_str(self.buf.data@));
        match str_from_utf8(content) {
            Some(text) => text,
            None => "",
        }
    }

    pub fn to_string(&self) -> (text: String)
        ensures
            text@ == self@,
    {
        self.as_slice().to_owned()
    }

    pub fn into_string(self) -> (text: String)
        ensures
            text@ == self@,
    {
        self.to_string()
    }

    /// Whether two texts are the same.
    pub fn eq(&self, other: &UTF8Str) -> (same: bool)
        ensures
            same == (self@ == other@),
            same == (self.bytes() == other.bytes()),
    {
        proof {
            use_type_invariant(self);
            use_type_invariant(&self.buf);
            use_type_invariant(other);
            use_type_invariant(&other.buf);
            lemma_c_str(self.buf.data@);
            lemma_c_str(other.buf.data@);
            if self@ == other@ {
                lemma_decode_is_injective(self.bytes(), other.bytes());
            }
        }
        let a = slice_subrange(self.buf.data.as_slice(), 0, self.len);
        let b = slice_subrange(other.buf.data.as_slice(), 0, other.len);
        assert(a@ =~= self.bytes());
        assert(b@ =~= other.bytes());
        bytes_eq(a, b)
    }

    /// Whether two texts differ.
    pub fn ne(&self, other: &UTF8Str) -> (differ: bool)
        ensures
            differ == (self@ != other@),
    {
        !self.eq(other)
    }

    /// Calls `f` with the bytes of the buffer, which end in a NUL.
    pub fn with_c_str<T, F: FnOnce(&[u8]) -> T>(&self, f: F) -> (out: T)
        requires
            forall|bytes: &[u8]| c_str_chars(bytes@) == self@ ==> call_requires(f, (bytes,)),
        ensures
            exists|bytes: &[u8]| c_str_chars(bytes@) == self@ && call_ensures(f, (bytes,), out),
    {
        self.buf.with_c_str(f)
    }
}

impl Clone for UTF8Str {
    /// A copy of the text in a buffer of its own, which holds the text and
    /// its NUL and nothing behind them.
    fn clone(&self) -> (copy: UTF8Str)
        ensures
            copy@ == self@,
            copy.bytes() == self.bytes(),
    {
        proof {
            use_type_invariant(self);
            use_type_invariant(&self.buf);
            lemma_c_str(self.buf.data@);
        }
        let mut data = slice_to_vec(slice_subrange(self.buf.data.as_slice(), 0, self.len));
        data.push(0);
        proof {
            lemma_c_str_ends_at(data@, self.len as int);
            assert(data@.take(self.len as int) =~= c_str(self.buf.data@));
        }
        UTF8Str::wrap(data, self.len)
    }
}

/// Text that can be handed to a foreign function as a NUL-terminated
/// buffer of UTF-8.
pub trait WithUTF8 {
    /// The text that is handed over.
    open spec fn text(&self) -> Seq<char> {
        arbitrary()
    }

    /// The text can be handed over: it holds no NUL, which would end it
    /// early.
    open spec fn can_pass(&self) -> bool {
        arbitrary()
    }

    /// Calls `f` with a buffer that holds the text and a NUL behind it.
    fn with_utf8_c_str<T, F: FnOnce(&[u8]) -> T>(&self, f: F) -> (out: T)
        requires
            self.can_pass(),
            forall|bytes: &[u8]| c_str_chars(bytes@) == self.text() ==> call_requires(f, (bytes,)),
        ensures
            exists|bytes: &[u8]|
                c_str_chars(bytes@) == self.text() && call_ensures(f, (bytes,), out),
    ;
}

impl<'a> WithUTF8 for UTF8Chars<'a> {
    open spec fn text(&self) -> Seq<char> {
        self@
    }

    open spec fn can_pass(&self) -> bool {
        true
    }

    fn with_utf8_c_str<T, F: FnOnce(&[u8]) -> T>(&self, f: F) -> (out: T) {
        self.with_c_str(f)
    }
}

impl WithUTF8 for UTF8Buf {
    open spec fn text(&self) -> Seq<char> {
        self@
    }

    open spec fn can_pass(&self) -> bool {
        true
    }

    fn with_utf8_c_str<T, F: FnOnce(&[u8]) -> T>(&self, f: F) -> (out: T) {
        self.with_c_str(f)
    }
}

impl WithUTF8 for UTF8Str {
    open spec fn text(&self) -> Seq<char> {
        self@
    }

    open spec fn can_pass(&self) -> bool {
        true
    }

    fn with_utf8_c_str<T, F: FnOnce(&[u8]) -> T>(&self, f: F) -> (out: T) {
        self.with_c_str(f)
    }
}

impl WithUTF8 for str {
    open spec fn text(&self) -> Seq<char> {
        self@
    }

    open spec fn can_pass(&self) -> bool {
        !is_c_str(self.spec_bytes())
    }

    fn with_utf8_c_str<T, F: FnOnce(&[u8]) -> T>(&self, f: F) -> (out: T) {
        let bytes = self.as_bytes();
        let mut buffer = slice_to_vec(bytes);
        buffer.push(0);
        proof {
            encode_utf8_valid_utf8(self@);
            encode_utf8_decode_utf8(self@);
            assert forall|i: int| 0 <= i < bytes@.len() implies buffer@[i] != 0 by {
                assert(bytes@.contains(bytes@[i]));
            }
            lemma_c_str_ends_at(buffer@, bytes@.len() as int);
            assert(buffer@.take(bytes@.len() as int) =~= bytes@);
        }
        f(buffer.as_slice())
    }
}

impl WithUTF8 for String {
    open spec fn text(&self) -> Seq<char> {
        self@
    }

    open spec fn can_pass(&self) -> bool {
        !is_c_str(encode_utf8(self@))
    }

    fn with_utf8_c_str<T, F: FnOnce(&[u8]) -> T>(&self, f: F) -> (out: T) {
        self.as_str().with_utf8_c_str(f)
    }
}

} // verus!
