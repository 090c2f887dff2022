//! Tags that name the types of the foreign runtime.

use vstd::prelude::*;
use crate::runtime::Runtime;
use crate::types::gsize;
use crate::wrap::Wrapper;
use crate::util::str_from_utf8;
use vstd::utf8::{decode_utf8, valid_utf8};

verus! {

/// A runtime type tag: an opaque machine word. Two tags name the same type
/// exactly when they are equal.
#[derive(Clone, Copy, PartialEq, Eq, Structural, Debug)]
pub struct GType(pub gsize);

// The raw tags of the fundamental types: the index of each, shifted left by
// two bits, as `lemma_fundamental_tags` shows. `GType::new` makes a tag of
// one.

pub const INVALID: gsize = 0;

pub const NONE: gsize = 4;

pub const INTERFACE: gsize = 8;

pub const CHAR: gsize = 12;

pub const UCHAR: gsize = 16;

pub const BOOLEAN: gsize = 20;

pub const INT: gsize = 24;

pub const UINT: gsize = 28;

pub const LONG: gsize = 32;

pub const ULONG: gsize = 36;

pub const INT64: gsize = 40;

pub const UINT64: gsize = 44;

pub const ENUM: gsize = 48;

pub const FLAGS: gsize = 52;

pub const FLOAT: gsize = 56;

pub const DOUBLE: gsize = 60;

pub const STRING: gsize = 64;

pub const POINTER: gsize = 68;

pub const BOXED: gsize = 72;

pub const PARAM: gsize = 76;

pub const OBJECT: gsize = 80;

pub const VARIANT: gsize = 84;

/// How far the index of a fundamental type is shifted to give its tag.
pub const FUNDAMENTAL_SHIFT: u32 = 2;

/// The largest index of a fundamental type.
pub const FUNDAMENTAL_MAX: gsize = 255;

/// The raw tag of the fundamental type with the given index.
pub open spec fn fundamental_tag(index: gsize) -> gsize {
    index << 2
}

/// The raw tag of the fundamental type with the given index.
pub fn fundamental(index: gsize) -> (raw: gsize)
    requires
        index <= FUNDAMENTAL_MAX,
    ensures
        raw == fundamental_tag(index),
        raw == index * 4,
{
    assert(index << 2 == index * 4) by (bit_vector)
        requires
            index <= 255,
    ;
    index << FUNDAMENTAL_SHIFT
}

/// The tags of the fundamental types are their indices, shifted.
pub proof fn lemma_fundamental_tags()
    ensures
        INVALID == fundamental_tag(0),
        NONE == fundamental_tag(1),
        INTERFACE == fundamental_tag(2),
        CHAR == fundamental_tag(3),
        UCHAR == fundamental_tag(4),
        BOOLEAN == fundamental_tag(5),
        INT == fundamental_tag(6),
        UINT == fundamental_tag(7),
        LONG == fundamental_tag(8),
        ULONG == fundamental_tag(9),
        INT64 == fundamental_tag(10),
        UINT64 == fundamental_tag(11),
        ENUM == fundamental_tag(12),
        FLAGS == fundamental_tag(13),
        FLOAT == fundamental_tag(14),
        DOUBLE == fundamental_tag(15),
        STRING == fundamental_tag(16),
        POINTER == fundamental_tag(17),
        BOXED == fundamental_tag(18),
        PARAM == fundamental_tag(19),
        OBJECT == fundamental_tag(20),
        VARIANT == fundamental_tag(21),
{
    assert(0 == 0usize << 2
            && 4 == 1usize << 2
            && 8 == 2usize << 2
            && 12 == 3usize << 2
            && 16 == 4usize << 2
            && 20 == 5usize << 2
            && 24 == 6usize << 2
            && 28 == 7usize << 2
            && 32 == 8usize << 2
            && 36 == 9usize << 2
            && 40 == 10usize << 2
            && 44 == 11usize << 2
            && 48 == 12usize << 2
            && 52 == 13usize << 2
            && 56 == 14usize << 2
            && 60 == 15usize << 2
            && 64 == 16usize << 2
            && 68 == 17usize << 2
            && 72 == 18usize << 2
            && 76 == 19usize << 2
            && 80 == 20usize << 2
            && 84 == 21usize << 2) by (bit_vector);
}

/// The name as text, where there is a name and it is UTF-8.
pub open spec fn named(name: Option<Seq<u8>>) -> Option<Seq<char>> {
    match name {
        Some(bytes) => if valid_utf8(bytes) {
            Some(decode_utf8(bytes))
        } else {
            None
        },
        None => None,
    }
}

/// The text, or no text where there is none.
pub open spec fn or_empty(text: Option<Seq<char>>) -> Seq<char> {
    match text {
        Some(t) => t,
        None => Seq::empty(),
    }
}

impl GType {
    pub open spec fn spec_raw(&self) -> gsize {
        self.0
    }

    /// Takes a raw tag on trust: nothing checks that a type was registered
    /// under it.
    pub fn new(type_id: gsize) -> (t: GType)
        ensures
            t == GType(type_id),
    {
        GType(type_id)
    }

    /// The name that the type is registered under; nothing for a tag that
    /// the runtime knows no type by, or whose name is no UTF-8.
    pub fn name<R: Runtime>(&self, rt: &R) -> (name: Option<String>)
        ensures
            name.is_some() == named(rt.state().g_type_name(*self)).is_some(),
            name matches Some(text) ==> Some(text@) == named(rt.state().g_type_name(*self)),
    {
        match rt.g_type_name(*self) {
            Some(bytes) => match str_from_utf8(bytes.as_slice()) {
                Some(text) => Some(text.to_owned()),
                None => None,
            },
            None => None,
        }
    }

    #[verifier::when_used_as_spec(spec_raw)]
    pub fn to_raw(&self) -> (type_id: gsize)
        ensures
            type_id == self.spec_raw(),
    {
        self.0
    }
}

/// Whether the live object at `inst` can be used as an instance of
/// `type_id`, by the tag that the object itself carries.
pub fn check_instance_is_a<T: Wrapper, R: Runtime>(rt: &R, inst: &T, type_id: GType) -> (is_a: bool)
    requires
        rt.state().live(inst.raw()),
    ensures
        is_a == rt.state().instance_is_a(inst.raw(), type_id),
{
    rt.check_instance_is_a(inst.as_ptr(), type_id)
}

} // verus!
