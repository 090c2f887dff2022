//! Bit flags of the foreign interface, as integers and as values.

use vstd::prelude::*;
use crate::gtype::GType;
use crate::types::guint;
use crate::util::{ascii_chars, ascii_to_string, binary, push_binary};

verus! {

/// A set of bit flags in which some bit is set that the flags type does
/// not know.
#[derive(Clone, Copy, PartialEq, Eq, Structural, Debug)]
pub struct UnknownFlags {
    actual: guint,
    known_mask: guint,
}

/// A type of bit flags that the foreign interface passes as an integer.
pub trait IntrospectedFlags: Sized {
    /// The bits that the type knows.
    open spec fn known_mask() -> guint {
        arbitrary()
    }

    /// The integer that the flags are passed as.
    open spec fn uint_value(&self) -> guint {
        arbitrary()
    }

    /// The flags that the integer stands for, where it sets no bit that
    /// the type does not know.
    fn from_uint(v: guint) -> (res: Result<Self, UnknownFlags>)
        ensures
            res is Ok <==> v & !Self::known_mask() == 0,
            res matches Ok(flags) ==> flags.uint_value() == v,
            res matches Err(unknown) ==> unknown.spec_actual() == v && unknown.spec_known_mask()
                == Self::known_mask(),
    ;

    fn to_uint(&self) -> (v: guint)
        ensures
            v == self.uint_value(),
    ;
}

/// A type of bit flags that is registered with the foreign type system.
pub trait FlagsType: IntrospectedFlags {
    open spec fn type_tag() -> GType {
        arbitrary()
    }

    fn get_type() -> (type_id: GType)
        ensures
            type_id == Self::type_tag(),
    ;
}

impl UnknownFlags {
    pub closed spec fn spec_actual(&self) -> guint {
        self.actual
    }

    pub closed spec fn spec_known_mask(&self) -> guint {
        self.known_mask
    }

    pub fn new(flags: guint, known_mask: guint) -> (unknown: UnknownFlags)
        ensures
            unknown.spec_actual() == flags,
            unknown.spec_known_mask() == known_mask,
    {
        UnknownFlags { actual: flags, known_mask }
    }

    /// All the bits that were met.
    #[verifier::when_used_as_spec(spec_actual)]
    pub fn actual(&self) -> (bits: guint)
        ensures
            bits == self.spec_actual(),
    {
        self.actual
    }

    /// The bits that were met and are not known.
    pub fn unknown(&self) -> (bits: guint)
        ensures
            bits == self.spec_actual() & !self.spec_known_mask(),
    {
        self.actual & !self.known_mask
    }

    /// The bits that were met and are known.
    pub fn known(&self) -> (bits: guint)
        ensures
            bits == self.spec_actual() & self.spec_known_mask(),
    {
        self.actual & self.known_mask
    }

    /// What went wrong, in general.
    pub fn description(&self) -> (text: &'static str)
        ensures
            text@ == "unknown bit flags encountered"@,
    {
        "unknown bit flags encountered"
    }

    /// What went wrong, with the bits that were met and those of them that
    /// are unknown, in binary.
    pub fn to_string(&self) -> (text: String)
        ensures
            text@ == "unsupported bit flag value 0b"@ + ascii_chars(
                binary(self.spec_actual() as nat),
            ) + " (unknown flags: 0b"@ + ascii_chars(
                binary((self.spec_actual() & !self.spec_known_mask()) as nat),
            ) + ")"@,
    {
        let mut digits: Vec<u8> = Vec::new();
        push_binary(&mut digits, self.actual as u64);
        let actual = ascii_to_string(digits.as_slice());
        let mut digits: Vec<u8> = Vec::new();
        push_binary(&mut digits, self.unknown() as u64);
        let unknown = ascii_to_string(digits.as_slice());
        let mut text = "unsupported bit flag value 0b".to_owned();
        text.append(actual.as_str());
        text.append(" (unknown flags: 0b");
        text.append(unknown.as_str());
        text.append(")");
        text
    }

    /// The value with its parts, for a developer to read, in binary.
    pub fn debug(&self) -> (text: String)
        ensures
            text@ == "UnknownFlags { actual: 0b"@ + ascii_chars(binary(self.spec_actual() as nat))
                + ", known_mask: 0b"@ + ascii_chars(binary(self.spec_known_mask() as nat))
                + " }"@,
    {
        let mut digits: Vec<u8> = Vec::new();
        push_binary(&mut digits, self.actual as u64);
        let actual = ascii_to_string(digits.as_slice());
        let mut digits: Vec<u8> = Vec::new();
        push_binary(&mut digits, self.known_mask as u64);
        let mask = ascii_to_string(digits.as_slice());
        let mut text = "UnknownFlags { actual: 0b".to_owned();
        text.append(actual.as_str());
        text.append(", known_mask: 0b");
        text.append(mask.as_str());
        text.append(" }");
        text
    }

    /// The known and the unknown bits make up the bits that were met, and
    /// share none.
    pub proof fn known_and_unknown_partition(&self)
        ensures
            (self.spec_actual() & self.spec_known_mask()) | (self.spec_actual()
                & !self.spec_known_mask()) == self.spec_actual(),
            (self.spec_actual() & self.spec_known_mask()) & (self.spec_actual()
                & !self.spec_known_mask()) == 0,
    {
        let a = self.actual;
        let m = self.known_mask;
        assert((a & m) | (a & !m) == a) by (bit_vector);
        assert((a & m) & (a & !m) == 0) by (bit_vector);
    }
}

/// The flags of type `F` that the integer stands for.
pub fn from_uint<F: IntrospectedFlags>(v: guint) -> (res: Result<F, UnknownFlags>)
    ensures
        res is Ok <==> v & !F::known_mask() == 0,
        res matches Ok(flags) ==> flags.uint_value() == v,
        res matches Err(unknown) ==> unknown.spec_actual() == v && unknown.spec_known_mask()
            == F::known_mask(),
{
    F::from_uint(v)
}

/// The tag under which the flags type `F` is registered.
pub fn type_of<F: FlagsType>() -> (type_id: GType)
    ensures
        type_id == F::type_tag(),
{
    F::get_type()
}

} // verus!
