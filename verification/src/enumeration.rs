//! Enumerations of the foreign interface, as integers and as values.

use vstd::prelude::*;
use crate::gtype::GType;
use crate::types::gint;
use crate::util::{ascii_chars, ascii_to_string, push_signed_decimal, signed_decimal};

verus! {

/// An integer that is no value of the enumeration it was read as.
#[derive(Clone, Copy, PartialEq, Eq, Structural, Debug)]
pub struct UnknownValue(pub gint);

/// An enumeration whose values the foreign interface passes as integers.
pub trait IntrospectedEnum: Sized {
    /// The integer stands for a value of the enumeration.
    open spec fn is_known(v: gint) -> bool {
        arbitrary()
    }

    /// The integer that the value is passed as.
    open spec fn int_value(&self) -> gint {
        arbitrary()
    }

    /// The name of the value.
    open spec fn value_name(&self) -> Seq<char> {
        arbitrary()
    }

    /// The value that the integer stands for: the only one that is passed
    /// as it.
    fn from_int(v: gint) -> (res: Result<Self, UnknownValue>)
        ensures
            res is Ok <==> Self::is_known(v),
            res matches Ok(value) ==> value.int_value() == v && forall|other: Self|
                other.int_value() == v ==> other == value,
            res matches Err(unknown) ==> unknown == UnknownValue(v),
    ;

    fn to_int(&self) -> (v: gint)
        ensures
            v == self.int_value(),
            Self::is_known(v),
    ;

    fn name(&self) -> (name: &'static str)
        ensures
            name@ == self.value_name(),
    ;
}

/// An enumeration that is registered with the foreign type system.
pub trait EnumType: IntrospectedEnum {
    open spec fn type_tag() -> GType {
        arbitrary()
    }

    fn get_type() -> (type_id: GType)
        ensures
            type_id == Self::type_tag(),
    ;
}

/// The text before the number in what an unknown value says of itself.
pub open spec fn unknown_value_prefix() -> Seq<char> {
    "unknown enumeration value "@
}

impl UnknownValue {
    /// What went wrong, in general.
    pub fn description(&self) -> (text: &'static str)
        ensures
            text@ == "unknown enumeration value"@,
    {
        "unknown enumeration value"
    }

    /// What went wrong, with the integer that was met.
    pub fn to_string(&self) -> (text: String)
        ensures
            text@ == unknown_value_prefix() + ascii_chars(signed_decimal(self.0 as int)),
    {
        let mut digits: Vec<u8> = Vec::new();
        push_signed_decimal(&mut digits, self.0 as i64);
        let number = ascii_to_string(digits.as_slice());
        let mut text = "unknown enumeration value ".to_owned();
        text.append(number.as_str());
        text
    }
}

/// The value of the enumeration `E` that the integer stands for.
pub fn from_int<E: IntrospectedEnum>(v: gint) -> (res: Result<E, UnknownValue>)
    ensures
        res is Ok <==> E::is_known(v),
        res matches Ok(value) ==> value.int_value() == v && forall|other: E|
            other.int_value() == v ==> other == value,
        res matches Err(unknown) ==> unknown == UnknownValue(v),
{
    E::from_int(v)
}

/// The tag under which the enumeration `E` is registered.
pub fn type_of<E: EnumType>() -> (type_id: GType)
    ensures
        type_id == E::type_tag(),
{
    E::get_type()
}

} // verus!
