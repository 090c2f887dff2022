//! What is read out of a foreign value container: the container holds a
//! type tag and a payload, and the payload may be read as a type only if
//! the tag says so.

use vstd::prelude::*;
use crate::boxed;
use crate::boxed::BoxedType;
use crate::gtype::{named, or_empty, GType};
use crate::object;
use crate::object::ObjectType;
use crate::wrap::{from_raw, RawPtr, Wrapper};
use crate::runtime::Runtime;

verus! {

/// A snapshot of a foreign value container that holds a pointer: the tag
/// of the type that it was initialized for, and the pointer that it holds
/// now, which is null while the container is empty.
#[derive(Clone, Copy, PartialEq, Eq, Structural, Debug)]
pub struct Value {
    g_type: GType,
    pointer: RawPtr,
}

impl Value {
    pub closed spec fn spec_value_type(&self) -> GType {
        self.g_type
    }

    /// The pointer that the container holds.
    pub closed spec fn pointer(&self) -> RawPtr {
        self.pointer
    }

    /// The snapshot of a container that was initialized for `g_type` and
    /// holds `pointer`.
    pub fn new(g_type: GType, pointer: RawPtr) -> (value: Value)
        ensures
            value.value_type() == g_type,
            value.pointer() == pointer,
    {
        Value { g_type, pointer }
    }

    /// The type that the container was initialized for.
    #[verifier::when_used_as_spec(spec_value_type)]
    pub fn value_type(&self) -> (g_type: GType)
        ensures
            g_type == self.spec_value_type(),
    {
        self.g_type
    }

    /// Whether the container was initialized for the object type `T`, so
    /// that `get_object` may read it.
    pub fn holds_object<T: ObjectType>(&self) -> (holds: bool)
        ensures
            holds == (self.value_type() == T::type_tag()),
    {
        self.g_type == object::type_of::<T>()
    }

    /// Whether the container was initialized for the boxed type `T`, so
    /// that `dup_boxed` and `deref_boxed` may read it.
    pub fn holds_boxed<T: BoxedType>(&self) -> (holds: bool)
        ensures
            holds == (self.value_type() == T::type_tag()),
    {
        self.g_type == boxed::type_of::<T>()
    }

    /// The object in the container, which must have been initialized for
    /// the type `T`; nothing if the container is empty. No reference is
    /// taken: the object is borrowed from the container.
    pub fn get_object<T: ObjectType>(&self) -> (object: Option<T>)
        requires
            self.value_type() == T::type_tag(),
        ensures
            object.is_some() == (self.pointer().addr != 0),
            object matches Some(o) ==> o.raw() == self.pointer(),
    {
        if self.pointer.is_null() {
            return None;
        }
        Some(from_raw(self.pointer))
    }

    /// The boxed value behind `copy`, which the foreign side has copied
    /// out of the container for the caller; nothing if the container was
    /// empty. The container must have been initialized for the type `T`.
    pub fn dup_boxed<T: BoxedType>(&self, copy: RawPtr) -> (boxed: Option<T>)
        requires
            self.value_type() == T::type_tag(),
        ensures
            boxed.is_some() == (copy.addr != 0),
            boxed matches Some(b) ==> b.boxed_ptr() == copy,
    {
        if copy.is_null() {
            return None;
        }
        Some(T::from_ptr(copy))
    }

    /// Lends the boxed value in the container to `read`, and gives what
    /// `read` makes of it; nothing if the container is empty. The value
    /// stays the container's: it is made of the pointer for the call and
    /// turned back into the pointer after it. The container must have been
    /// initialized for the type `T`.
    pub fn deref_boxed<T: BoxedType, U, F: FnOnce(&T) -> U>(&self, read: F) -> (out: Option<U>)
        requires
            self.value_type() == T::type_tag(),
            forall|boxed: &T| boxed.boxed_ptr() == self.pointer() ==> call_requires(read, (boxed,)),
        ensures
            out.is_some() == (self.pointer().addr != 0),
            out matches Some(o) ==> exists|boxed: &T|
                boxed.boxed_ptr() == self.pointer() && call_ensures(read, (boxed,), o),
    {
        let p = self.pointer;
        if p.is_null() {
            return None;
        }
        let boxed: T = T::from_ptr(p);
        let ret = read(&boxed);
        let q = boxed.into_ptr();
        assert(q == p);
        Some(ret)
    }

    /// What to tell when a container is read as an object type that it
    /// was not initialized for: it names the type that was asked for, where
    /// the runtime knows a name for it.
    pub fn wrong_object_type<T: ObjectType, R: Runtime>(rt: &R) -> (text: String)
        ensures
            text@ == "GValue does not have the object type "@ + or_empty(
                named(rt.state().g_type_name(T::type_tag())),
            ),
    {
        let mut text = "GValue does not have the object type ".to_owned();
        if let Some(name) = object::type_of::<T>().name(rt) {
            text.append(name.as_str());
        } else {
            assert(text@ + Seq::<char>::empty() =~= text@);
        }
        text
    }

    /// As `wrong_object_type`, for a boxed type.
    pub fn wrong_boxed_type<T: BoxedType, R: Runtime>(rt: &R) -> (text: String)
        ensures
            text@ == "GValue does not have the boxed type "@ + or_empty(
                named(rt.state().g_type_name(T::type_tag())),
            ),
    {
        let mut text = "GValue does not have the boxed type ".to_owned();
        if let Some(name) = boxed::type_of::<T>().name(rt) {
            text.append(name.as_str());
        } else {
            assert(text@ + Seq::<char>::empty() =~= text@);
        }
        text
    }
}

} // verus!
