//! Small conversions that the rest of the library shares.

use vstd::prelude::*;
use vstd::utf8::*;
use crate::types::{gboolean, FALSE};

verus! {

/// Whether a foreign boolean counts as true: anything but `FALSE`.
pub fn is_true(v: gboolean) -> (b: bool)
    ensures
        b == (v != FALSE),
{
    v != FALSE
}

/// Whether a foreign boolean counts as false: `FALSE` alone.
pub fn is_false(v: gboolean) -> (b: bool)
    ensures
        b == (v == FALSE),
{
    v == FALSE
}

/// Whether two byte strings hold the same bytes.
pub fn bytes_eq(a: &[u8], b: &[u8]) -> (eq: bool)
    ensures
        eq == (a@ == b@),
{
    if a.len() != b.len() {
        return false;
    }
    let mut i: usize = 0;
    while i < a.len()
        invariant
            i <= a@.len(),
            a@.len() == b@.len(),
            forall|j: int| 0 <= j < i ==> a@[j] == b@[j],
        decreases a@.len() - i,
    {
        if a[i] != b[i] {
            return false;
        }
        i = i + 1;
    }
    assert(a@ =~= b@);
    true
}

/// `char::from_u32` of std: the character with the given scalar value, and
/// nothing for a value that is no Unicode scalar.
#[verifier::external_body]
pub(crate) fn char_from_u32(v: u32) -> (c: Option<char>)
    ensures
        c == (if is_scalar(v) {
            Some(v as char)
        } else {
            None::<char>
        }),
{
    char::from_u32(v)
}

/// `core::str::from_utf8` of std: the bytes as a string slice where they
/// are well-formed UTF-8, and nothing where they are not.
#[verifier::external_body]
pub(crate) fn str_from_utf8(bytes: &[u8]) -> (s: Option<&str>)
    ensures
        s.is_some() == valid_utf8(bytes@),
        s matches Some(text) ==> text@ == decode_utf8(bytes@),
{
    core::str::from_utf8(bytes).ok()
}

/// The bytes are all ASCII.
pub open spec fn is_ascii_bytes(bytes: Seq<u8>) -> bool {
    forall|i: int| 0 <= i < bytes.len() ==> bytes[i] < 128
}

/// The characters that ASCII bytes stand for, one for one.
pub open spec fn ascii_chars(bytes: Seq<u8>) -> Seq<char> {
    Seq::new(bytes.len(), |i: int| bytes[i] as char)
}

/// ASCII bytes are well-formed UTF-8, and decode to the characters that
/// they stand for.
pub proof fn lemma_ascii_is_utf8(bytes: Seq<u8>)
    requires
        is_ascii_bytes(bytes),
    ensures
        valid_utf8(bytes),
        decode_utf8(bytes) == ascii_chars(bytes),
{
    let chars = ascii_chars(bytes);
    assert(is_ascii_chars(chars));
    is_ascii_chars_encode_utf8(chars);
    assert(encode_utf8(chars) =~= bytes);
    encode_utf8_valid_utf8(chars);
    encode_utf8_decode_utf8(chars);
}

/// Whether the bytes are all ASCII.
pub fn is_ascii(bytes: &[u8]) -> (ascii: bool)
    ensures
        ascii == is_ascii_bytes(bytes@),
{
    let mut i: usize = 0;
    while i < bytes.len()
        invariant
            i <= bytes@.len(),
            forall|j: int| 0 <= j < i ==> bytes@[j] < 128,
        decreases bytes@.len() - i,
    {
        if bytes[i] >= 128 {
            return false;
        }
        i = i + 1;
    }
    true
}

/// The string of ASCII bytes.
pub fn ascii_to_string(bytes: &[u8]) -> (s: String)
    requires
        is_ascii_bytes(bytes@),
    ensures
        s@ == ascii_chars(bytes@),
{
    proof {
        lemma_ascii_is_utf8(bytes@);
    }
    match str_from_utf8(bytes) {
        Some(text) => text.to_owned(),
        None => String::new(),
    }
}

/// The ASCII digit for a value below sixteen, in lower case.
pub open spec fn hex_digit(n: u8) -> u8 {
    if n < 10 {
        (48 + n) as u8
    } else {
        (87 + n) as u8
    }
}

/// How one byte is written in an escaped byte string: tab, carriage
/// return, line feed, the two quotes and the backslash behind a backslash,
/// other printable ASCII as it is, and every other byte as `\x` and two
/// hexadecimal digits.
pub open spec fn escape_default(b: u8) -> Seq<u8> {
    if b == 9 {
        seq![92u8, 116u8]
    } else if b == 13 {
        seq![92u8, 114u8]
    } else if b == 10 {
        seq![92u8, 110u8]
    } else if b == 39 || b == 34 || b == 92 {
        seq![92u8, b]
    } else if 0x20 <= b <= 0x7e {
        seq![b]
    } else {
        seq![92u8, 120u8, hex_digit(b / 16), hex_digit(b % 16)]
    }
}

/// The bytes with each of them escaped.
pub open spec fn escaped(bytes: Seq<u8>) -> Seq<u8>
    decreases bytes.len(),
{
    if bytes.len() == 0 {
        Seq::empty()
    } else {
        escaped(bytes.drop_last()) + escape_default(bytes.last())
    }
}

/// What `escape_bytestring` makes of the bytes: ASCII text stays as it is,
/// and in any other byte string every byte is escaped.
pub open spec fn escape_bytestring_spec(bytes: Seq<u8>) -> Seq<char> {
    if is_ascii_bytes(bytes) {
        ascii_chars(bytes)
    } else {
        ascii_chars(escaped(bytes))
    }
}

fn hex_digit_of(n: u8) -> (d: u8)
    requires
        n < 16,
    ensures
        d == hex_digit(n),
        d < 128,
{
    if n < 10 {
        48 + n
    } else {
        87 + n
    }
}

fn push_escaped(acc: &mut Vec<u8>, b: u8)
    requires
        is_ascii_bytes(old(acc)@),
    ensures
        final(acc)@ == old(acc)@ + escape_default(b),
        is_ascii_bytes(final(acc)@),
{
    let ghost before = acc@;
    if b == 9 {
        acc.push(92);
        acc.push(116);
    } else if b == 13 {
        acc.push(92);
        acc.push(114);
    } else if b == 10 {
        acc.push(92);
        acc.push(110);
    } else if b == 39 || b == 34 || b == 92 {
        acc.push(92);
        acc.push(b);
    } else if 0x20 <= b && b <= 0x7e {
        acc.push(b);
    } else {
        acc.push(92);
        acc.push(120);
        acc.push(hex_digit_of(b / 16));
        acc.push(hex_digit_of(b % 16));
    }
    assert(acc@ =~= before + escape_default(b));
}

/// Makes a byte string printable. Text that is all ASCII is given back as
/// it stands; in any other byte string each byte is escaped.
pub fn escape_bytestring(s: &[u8]) -> (text: String)
    ensures
        text@ == escape_bytestring_spec(s@),
{
    if is_ascii(s) {
        return ascii_to_string(s);
    }
    let mut acc: Vec<u8> = Vec::new();
    let mut i: usize = 0;
    while i < s.len()
        invariant
            i <= s@.len(),
            acc@ == escaped(s@.take(i as int)),
            is_ascii_bytes(acc@),
        decreases s@.len() - i,
    {
        push_escaped(&mut acc, s[i]);
        assert(s@.take(i + 1).drop_last() =~= s@.take(i as int));
        i = i + 1;
    }
    assert(s@.take(i as int) =~= s@);
    ascii_to_string(acc.as_slice())
}

/// The decimal digits of a number, in ASCII.
pub open spec fn decimal(n: nat) -> Seq<u8>
    decreases n,
{
    if n < 10 {
        seq![(48 + n) as u8]
    } else {
        decimal(n / 10).push((48 + n % 10) as u8)
    }
}

/// A number in decimal, with a minus sign in front of a negative one.
pub open spec fn signed_decimal(v: int) -> Seq<u8> {
    if v < 0 {
        seq![45u8] + decimal((-v) as nat)
    } else {
        decimal(v as nat)
    }
}

fn push_decimal(acc: &mut Vec<u8>, n: u64)
    requires
        is_ascii_bytes(old(acc)@),
    ensures
        final(acc)@ == old(acc)@ + decimal(n as nat),
        is_ascii_bytes(final(acc)@),
    decreases n,
{
    let ghost before = acc@;
    if n >= 10 {
        push_decimal(acc, n / 10);
    }
    acc.push(48 + (n % 10) as u8);
    assert(acc@ =~= before + decimal(n as nat));
}

/// Writes a number in decimal at the end of `acc`.
pub fn push_signed_decimal(acc: &mut Vec<u8>, v: i64)
    requires
        is_ascii_bytes(old(acc)@),
    ensures
        final(acc)@ == old(acc)@ + signed_decimal(v as int),
        is_ascii_bytes(final(acc)@),
{
    let ghost before = acc@;
    if v < 0 {
        acc.push(45);
        let magnitude: u64 = if v == i64::MIN {
            0x8000_0000_0000_0000
        } else {
            (-v) as u64
        };
        push_decimal(acc, magnitude);
        assert(acc@ =~= before + (seq![45u8] + decimal((-v) as nat)));
    } else {
        push_decimal(acc, v as u64);
    }
}

/// What `String::from_utf8_lossy` of std makes of the bytes.
pub uninterp spec fn utf8_lossy(bytes: Seq<u8>) -> Seq<char>;

/// `String::from_utf8_lossy` of std: the bytes as text, with a replacement
/// character for each ill-formed part; well-formed UTF-8 comes out as it
/// is.
#[verifier::external_body]
pub(crate) fn string_from_utf8_lossy(bytes: &[u8]) -> (text: String)
    ensures
        text@ == utf8_lossy(bytes@),
        valid_utf8(bytes@) ==> text@ == decode_utf8(bytes@),
{
    String::from_utf8_lossy(bytes).into_owned()
}

/// The binary digits of a number, in ASCII.
pub open spec fn binary(n: nat) -> Seq<u8>
    decreases n,
{
    if n < 2 {
        seq![(48 + n) as u8]
    } else {
        binary(n / 2).push((48 + n % 2) as u8)
    }
}

/// Writes a number in binary at the end of `acc`.
pub fn push_binary(acc: &mut Vec<u8>, n: u64)
    requires
        is_ascii_bytes(old(acc)@),
    ensures
        final(acc)@ == old(acc)@ + binary(n as nat),
        is_ascii_bytes(final(acc)@),
    decreases n,
{
    let ghost before = acc@;
    if n >= 2 {
        push_binary(acc, n / 2);
    }
    acc.push(48 + (n % 2) as u8);
    assert(acc@ =~= before + binary(n as nat));
}

} // verus!
