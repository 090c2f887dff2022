//! The root of the object hierarchy.

use vstd::prelude::*;
use crate::gtype::{GType, OBJECT};
use crate::object::{ObjectType, Upcast};
use crate::wrap::{RawPtr, Wrapper};

verus! {

/// An instance of any type of the foreign type system: what starts with a
/// pointer to its class, and so carries its type tag.
pub struct TypeInstance {
    pub raw: RawPtr,
}

/// An instance of the base object type, or of a type derived from it.
pub struct Object {
    pub instance: TypeInstance,
}

impl Wrapper for TypeInstance {
    open spec fn raw(&self) -> RawPtr {
        self.raw
    }

    fn as_ptr(&self) -> (p: RawPtr) {
        self.raw
    }

    fn as_mut_ptr(&self) -> (p: RawPtr) {
        self.raw
    }

    fn wrap(ptr: RawPtr) -> (w: Self) {
        TypeInstance { raw: ptr }
    }
}

impl Wrapper for Object {
    open spec fn raw(&self) -> RawPtr {
        self.instance.raw
    }

    fn as_ptr(&self) -> (p: RawPtr) {
        self.instance.raw
    }

    fn as_mut_ptr(&self) -> (p: RawPtr) {
        self.instance.raw
    }

    fn wrap(ptr: RawPtr) -> (w: Self) {
        Object { instance: TypeInstance { raw: ptr } }
    }
}

impl ObjectType for Object {
    open spec fn type_tag() -> GType {
        GType(OBJECT)
    }

    fn get_type() -> (type_id: GType) {
        GType::new(OBJECT)
    }
}

/// Every object starts with its type instance.
impl Upcast<TypeInstance> for Object {
    fn upcast(&self) -> (sup: &TypeInstance) {
        &self.instance
    }
}

/// What can be used as an object.
pub trait AsObject {
    open spec fn object_ptr(&self) -> RawPtr {
        arbitrary()
    }

    fn as_gobject_object(&self) -> (object: &Object)
        ensures
            object.raw() == self.object_ptr(),
    ;
}

impl<T: Upcast<Object>> AsObject for T {
    open spec fn object_ptr(&self) -> RawPtr {
        self.raw()
    }

    fn as_gobject_object(&self) -> (object: &Object) {
        self.upcast()
    }
}

} // verus!
