//! An object together with the main context that it is to be used in.

use vstd::prelude::*;
use crate::refcount::RefcountFuncs;
use crate::runtime::Runtime;
use crate::types::guint;
use crate::wrap::RawPtr;

verus! {

/// A pointer to an object and a pointer to its context. The pair owns
/// nothing by itself: who holds it says whether references go with it.
#[derive(Clone, Copy, PartialEq, Eq, Structural, Debug)]
pub struct Object {
    raw_obj: RawPtr,
    context: RawPtr,
}

/// Pairs an object with its context. No reference is taken on either.
pub fn get_object(obj: RawPtr, ctx: RawPtr) -> (object: Object)
    ensures
        object.spec_raw() == obj,
        object.spec_context() == ctx,
{
    Object { raw_obj: obj, context: ctx }
}

/// Pairs an object with its context for an owner. The caller's reference
/// on the object goes to the owner; a reference on the context is taken
/// for it.
pub fn take_object<R: Runtime>(rt: &mut R, obj: RawPtr, ctx: RawPtr) -> (object: Object)
    requires
        old(rt).state().live(ctx),
        old(rt).state().counts[ctx] < guint::MAX,
    ensures
        object.spec_raw() == obj,
        object.spec_context() == ctx,
        final(rt).state() == old(rt).state().inc(ctx),
{
    rt.inc_ref(RefcountFuncs::MainContext, ctx);
    Object { raw_obj: obj, context: ctx }
}

impl Object {
    pub closed spec fn spec_raw(&self) -> RawPtr {
        self.raw_obj
    }

    pub closed spec fn spec_context(&self) -> RawPtr {
        self.context
    }

    /// The object.
    #[verifier::when_used_as_spec(spec_raw)]
    pub fn raw(&self) -> (p: RawPtr)
        ensures
            p == self.spec_raw(),
    {
        self.raw_obj
    }

    /// The object, as the type instance that it starts with.
    pub fn type_instance(&self) -> (p: RawPtr)
        ensures
            p == self.spec_raw(),
    {
        self.raw_obj
    }

    /// The context that the object is to be used in.
    #[verifier::when_used_as_spec(spec_context)]
    pub fn context(&self) -> (p: RawPtr)
        ensures
            p == self.spec_context(),
    {
        self.context
    }

    /// Takes a reference on the object, and one on its context.
    pub fn inc_ref<R: Runtime>(&self, rt: &mut R)
        requires
            old(rt).state().live(self.raw()),
            old(rt).state().counts[self.raw()] < guint::MAX,
            old(rt).state().inc(self.raw()).live(self.context()),
            old(rt).state().inc(self.raw()).counts[self.context()] < guint::MAX,
        ensures
            final(rt).state() == old(rt).state().inc(self.raw()).inc(self.context()),
    {
        rt.inc_ref(RefcountFuncs::Object, self.raw_obj);
        rt.inc_ref(RefcountFuncs::MainContext, self.context);
    }

    /// Gives up a reference on the object, and one on its context.
    pub fn dec_ref<R: Runtime>(&self, rt: &mut R)
        requires
            old(rt).state().live(self.raw()),
            old(rt).state().dec(self.raw()).live(self.context()),
        ensures
            final(rt).state() == old(rt).state().dec(self.raw()).dec(self.context()),
    {
        rt.dec_ref(RefcountFuncs::Object, self.raw_obj);
        rt.dec_ref(RefcountFuncs::MainContext, self.context);
    }
}

} // verus!
