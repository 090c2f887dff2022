//! Values that the foreign type system knows as boxed: passed around as
//! pointers, copied and freed by functions of their own.

use vstd::prelude::*;
use crate::gtype::GType;
use crate::wrap::RawPtr;

verus! {

/// A type whose values can be handed to the foreign side as boxed
/// pointers and taken back from it.
pub trait BoxedType: Sized {
    /// The tag under which the type is registered. It does not change once
    /// computed.
    open spec fn type_tag() -> GType {
        arbitrary()
    }

    /// The pointer that the value is handed over as.
    open spec fn boxed_ptr(&self) -> RawPtr {
        arbitrary()
    }

    fn get_type() -> (type_id: GType)
        ensures
            type_id == Self::type_tag(),
    ;

    /// The value behind a boxed pointer that the caller owns. Nothing
    /// checks the pointer.
    fn from_ptr(ptr: RawPtr) -> (value: Self)
        ensures
            value.boxed_ptr() == ptr,
    ;

    /// The value as a boxed pointer, which the caller then owns: the very
    /// pointer that `from_ptr` would make the value of.
    fn into_ptr(self) -> (ptr: RawPtr)
        ensures
            ptr == self.boxed_ptr(),
    ;
}

/// The tag under which the boxed type `T` is registered.
pub fn type_of<T: BoxedType>() -> (type_id: GType)
    ensures
        type_id == T::type_tag(),
{
    T::get_type()
}

} // verus!
