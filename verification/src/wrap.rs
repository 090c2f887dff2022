//! Local values that stand for structures in foreign memory.

use vstd::prelude::*;

verus! {

/// An address in foreign memory. The library never looks behind it: all
/// access to what it points at goes through the foreign runtime.
#[derive(Clone, Copy, PartialEq, Eq, Structural, Debug)]
pub struct RawPtr {
    pub addr: usize,
}

impl RawPtr {
    /// The address that points at nothing.
    pub fn null() -> (p: RawPtr)
        ensures
            p.addr == 0,
    {
        RawPtr { addr: 0 }
    }

    pub fn is_null(&self) -> (b: bool)
        ensures
            b == (self.addr == 0),
    {
        self.addr == 0
    }
}

/// A local type whose values are laid out exactly as a foreign structure,
/// so that a value and the address of the foreign structure can stand for
/// each other. Nothing checks the claim: only a type whose author has held
/// it against the foreign layout may implement this.
pub trait Wrapper: Sized {
    /// The foreign address that the value stands for. Every implementation
    /// states it; left unstated, it is some address that nothing is known
    /// of.
    open spec fn raw(&self) -> RawPtr {
        arbitrary()
    }

    /// Reads the value as a pointer to the foreign structure.
    fn as_ptr(&self) -> (p: RawPtr)
        ensures
            p == self.raw(),
    ;

    /// As `as_ptr`, for foreign functions that write through the pointer.
    fn as_mut_ptr(&self) -> (p: RawPtr)
        ensures
            p == self.raw(),
    ;

    /// Reads a pointer to the foreign structure as a value of this type.
    /// The value has no content of its own beside the address: it is the
    /// only one that stands for it.
    fn wrap(ptr: RawPtr) -> (w: Self)
        ensures
            w.raw() == ptr,
            forall|other: Self| other.raw() == ptr ==> other == w,
    ;
}

/// Reinterprets a pointer to a foreign structure as the local type laid out
/// like it. The pointer is not validated.
pub fn from_raw<T: Wrapper>(ptr: RawPtr) -> (w: T)
    ensures
        w.raw() == ptr,
        forall|other: T| other.raw() == ptr ==> other == w,
{
    T::wrap(ptr)
}

} // verus!
