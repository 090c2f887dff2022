//! Typed views of objects that are bound to a main context: interfaces,
//! which borrow, and references, which own.

use core::marker::PhantomData;
use vstd::prelude::*;
use crate::object::ObjectType;
use crate::plumbing;
use crate::runtime::Runtime;
use crate::types::guint;
use crate::wrap::RawPtr;

verus! {

/// A borrowed view of an object as a `T`. It takes and gives up no
/// reference.
pub struct Interface<T> {
    bare: plumbing::Object,
    marker: PhantomData<T>,
}

/// An owned view of an object as a `T`: it holds a reference on the object
/// and one on its context for as long as it lives.
pub struct Reference<T> {
    iface: Interface<T>,
}

impl<T> Interface<T> {
    /// The object and its context.
    pub closed spec fn bare(&self) -> plumbing::Object {
        self.bare
    }

    /// Takes a reference on the object and its context, and gives the view
    /// that owns them.
    pub fn new_ref<R: Runtime>(&self, rt: &mut R) -> (r: Reference<T>)
        requires
            old(rt).state().live(self.bare().raw()),
            old(rt).state().counts[self.bare().raw()] < guint::MAX,
            old(rt).state().inc(self.bare().raw()).live(self.bare().context()),
            old(rt).state().inc(self.bare().raw()).counts[self.bare().context()] < guint::MAX,
        ensures
            r.bare() == self.bare(),
            final(rt).state() == old(rt).state().inc(self.bare().raw()).inc(self.bare().context()),
    {
        self.bare.inc_ref(rt);
        Reference { iface: Interface { bare: self.bare, marker: PhantomData } }
    }

    /// The same object viewed as a `U`, of which it must be an instance.
    pub fn cast<U: ObjectType, R: Runtime>(&self, rt: &R) -> (target: Interface<U>)
        requires
            rt.state().instance_is_a(self.bare().raw(), U::type_tag()),
        ensures
            target.bare() == self.bare(),
    {
        cast(rt, self)
    }

    /// The object.
    pub fn raw(&self) -> (p: RawPtr)
        ensures
            p == self.bare().raw(),
    {
        self.bare.raw()
    }

    /// The context that the object is to be used in.
    pub fn context(&self) -> (p: RawPtr)
        ensures
            p == self.bare().context(),
    {
        self.bare.context()
    }
}

impl<T> Reference<T> {
    /// The object and its context.
    pub closed spec fn bare(&self) -> plumbing::Object {
        self.iface.bare
    }

    pub closed spec fn spec_interface(&self) -> &Interface<T> {
        &self.iface
    }

    /// The view, borrowed for as long as the reference is.
    #[verifier::when_used_as_spec(spec_interface)]
    pub fn interface(&self) -> (iface: &Interface<T>)
        ensures
            iface == self.spec_interface(),
            iface.bare() == self.bare(),
    {
        &self.iface
    }

    /// Calls `f` with the view, and gives what it returns.
    pub fn as_interface<U, F: FnOnce(&Interface<T>) -> U>(&self, f: F) -> (out: U)
        requires
            call_requires(f, (self.spec_interface(),)),
        ensures
            call_ensures(f, (self.spec_interface(),), out),
    {
        f(&self.iface)
    }

    /// A second owned view of the same object, with references of its own.
    pub fn clone<R: Runtime>(&self, rt: &mut R) -> (r: Reference<T>)
        requires
            old(rt).state().live(self.bare().raw()),
            old(rt).state().counts[self.bare().raw()] < guint::MAX,
            old(rt).state().inc(self.bare().raw()).live(self.bare().context()),
            old(rt).state().inc(self.bare().raw()).counts[self.bare().context()] < guint::MAX,
        ensures
            r.bare() == self.bare(),
            final(rt).state() == old(rt).state().inc(self.bare().raw()).inc(self.bare().context()),
    {
        self.iface.new_ref(rt)
    }

    /// Ends the view: its references on the object and on the context are
    /// given up.
    pub fn finalize<R: Runtime>(self, rt: &mut R)
        requires
            old(rt).state().live(self.bare().raw()),
            old(rt).state().dec(self.bare().raw()).live(self.bare().context()),
        ensures
            final(rt).state() == old(rt).state().dec(self.bare().raw()).dec(self.bare().context()),
    {
        self.iface.bare.dec_ref(rt);
    }
}

/// The object behind `t` viewed as a `U`, of which it must be an instance:
/// a caller that cannot show it asks the runtime first.
pub fn cast<T, U: ObjectType, R: Runtime>(rt: &R, t: &Interface<T>) -> (target: Interface<U>)
    requires
        rt.state().instance_is_a(t.bare().raw(), U::type_tag()),
    ensures
        target.bare() == t.bare(),
{
    Interface { bare: t.bare, marker: PhantomData }
}

/// A borrowed view of the object at `obj`, to be used in the context at
/// `ctx`. Nothing checks that the object is a `T`.
pub fn make_interface<T>(obj: RawPtr, ctx: RawPtr) -> (iface: Interface<T>)
    ensures
        iface.bare().raw() == obj,
        iface.bare().context() == ctx,
{
    Interface { bare: plumbing::get_object(obj, ctx), marker: PhantomData }
}

/// An owned view of the object at `obj`, to be used in the context at
/// `ctx`. The caller's reference on the object goes to the view; a
/// reference on the context is taken for it. Nothing checks that the
/// object is a `T`.
pub fn take_object<T, R: Runtime>(rt: &mut R, obj: RawPtr, ctx: RawPtr) -> (r: Reference<T>)
    requires
        old(rt).state().live(ctx),
        old(rt).state().counts[ctx] < guint::MAX,
    ensures
        r.bare().raw() == obj,
        r.bare().context() == ctx,
        final(rt).state() == old(rt).state().inc(ctx),
{
    Reference { iface: Interface { bare: plumbing::take_object(rt, obj, ctx), marker: PhantomData } }
}

} // verus!
