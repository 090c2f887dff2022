//! Owning handles on reference-counted foreign objects.

use core::marker::PhantomData;
use std::rc::Rc;
use vstd::multiset::Multiset;
use vstd::prelude::*;
use crate::runtime::{Runtime, State};
use crate::types::guint;
use crate::wrap::{from_raw, RawPtr, Wrapper};

verus! {

/// A pair of foreign functions, one that takes a reference on an object and
/// one that gives it up.
#[derive(Clone, Copy, PartialEq, Eq, Structural, Debug)]
pub enum RefcountFuncs {
    /// The pair of the object runtime, for every type with a runtime type
    /// identity.
    Object,
    /// The pair for main contexts.
    MainContext,
    /// The pair for main loops.
    MainLoop,
    /// The pair for event sources.
    Source,
}

/// A type whose instances are reference-counted by the foreign side.
pub trait Refcount: Wrapper {
    /// The pair of functions that counts the references of instances of
    /// this type.
    open spec fn funcs() -> RefcountFuncs {
        arbitrary()
    }

    fn refcount_funcs(&self) -> (funcs: RefcountFuncs)
        ensures
            funcs == Self::funcs(),
    ;
}

/// An owning handle on a foreign object: it holds one reference for as long
/// as it lives. It is confined to the thread it was made on.
pub struct Ref<T: Refcount> {
    obj: T,
    /// Keeps the handle from being sent to, or shared with, another thread.
    confined: PhantomData<Rc<()>>,
}

/// A type whose references may be taken and given up from several threads
/// at once: the foreign side counts them atomically.
pub trait Threadsafe: Refcount {
}

/// An owning handle as `Ref` is, for a type with concurrency-safe counting:
/// it may be sent to, and shared with, other threads.
pub struct SyncRef<T: Threadsafe> {
    obj: T,
}

impl<T: Refcount> Ref<T> {
    /// The object that the handle holds a reference on.
    pub closed spec fn ptr(&self) -> RawPtr {
        self.obj.raw()
    }

    /// Takes a new reference on the object behind `source` and gives the
    /// handle that owns it. `source` itself is left as it was.
    pub fn new<R: Runtime>(rt: &mut R, source: &T) -> (r: Ref<T>)
        requires
            old(rt).state().live(source.raw()),
            old(rt).state().counts[source.raw()] < guint::MAX,
        ensures
            r.ptr() == source.raw(),
            final(rt).state() == old(rt).state().inc(source.raw()),
    {
        let ptr = source.as_mut_ptr();
        rt.inc_ref(source.refcount_funcs(), ptr);
        Ref { obj: from_raw(ptr), confined: PhantomData }
    }

    /// Adopts a reference that the caller already holds on the object at
    /// `ptr`: no new reference is taken. Nothing checks that the pointer is
    /// valid, nor that the reference is the caller's to give.
    pub fn from_raw(ptr: RawPtr) -> (r: Ref<T>)
        ensures
            r.ptr() == ptr,
    {
        Ref { obj: from_raw(ptr), confined: PhantomData }
    }

    /// The object, borrowed for as long as the handle is.
    pub fn deref(&self) -> (obj: &T)
        ensures
            obj.raw() == self.ptr(),
    {
        &self.obj
    }

    /// A borrowed reference to the object, good for as long as the handle.
    pub fn borrow<'a>(&'a self) -> (unowned: Unowned<'a, T>)
        ensures
            unowned.ptr() == self.ptr(),
    {
        Unowned::new(&self.obj)
    }

    /// The object, as the address that the foreign functions take.
    pub fn as_ptr(&self) -> (p: RawPtr)
        ensures
            p == self.ptr(),
    {
        self.obj.as_ptr()
    }

    /// Takes one more reference on the object and gives a second handle,
    /// which owns it.
    pub fn clone<R: Runtime>(&self, rt: &mut R) -> (r: Ref<T>)
        requires
            old(rt).state().live(self.ptr()),
            old(rt).state().counts[self.ptr()] < guint::MAX,
        ensures
            r.ptr() == self.ptr(),
            final(rt).state() == old(rt).state().inc(self.ptr()),
    {
        Ref::new(rt, &self.obj)
    }

    /// Makes this handle refer to the object of `source`. Where both refer
    /// to one object already, nothing is done; otherwise a reference is
    /// taken on the object of `source` before the one on the old object is
    /// given up.
    pub fn clone_from<R: Runtime>(&mut self, rt: &mut R, source: &Ref<T>)
        requires
            old(rt).state().live(old(self).ptr()),
            old(rt).state().live(source.ptr()),
            old(self).ptr() != source.ptr() ==> old(rt).state().counts[source.ptr()] < guint::MAX,
        ensures
            final(self).ptr() == source.ptr(),
            old(self).ptr() == source.ptr() ==> final(rt).state() == old(rt).state(),
            old(self).ptr() != source.ptr() ==> final(rt).state() == old(rt).state().inc(
                source.ptr(),
            ).dec(old(self).ptr()),
    {
        let target = self.obj.as_mut_ptr();
        let adopted = source.obj.as_mut_ptr();
        if target != adopted {
            rt.inc_ref(source.obj.refcount_funcs(), adopted);
            rt.dec_ref(self.obj.refcount_funcs(), target);
            self.obj = from_raw(adopted);
        }
    }

    /// Ends the handle: its reference is given up, once.
    pub fn drop<R: Runtime>(self, rt: &mut R)
        requires
            old(rt).state().live(self.ptr()),
        ensures
            final(rt).state() == old(rt).state().dec(self.ptr()),
    {
        rt.dec_ref(self.obj.refcount_funcs(), self.obj.as_mut_ptr());
    }
}

impl<T: Threadsafe> SyncRef<T> {
    /// The object that the handle holds a reference on.
    pub closed spec fn ptr(&self) -> RawPtr {
        self.obj.raw()
    }

    /// Takes a new reference on the object behind `source` and gives the
    /// handle that owns it.
    pub fn new<R: Runtime>(rt: &mut R, source: &T) -> (r: SyncRef<T>)
        requires
            old(rt).state().live(source.raw()),
            old(rt).state().counts[source.raw()] < guint::MAX,
        ensures
            r.ptr() == source.raw(),
            final(rt).state() == old(rt).state().inc(source.raw()),
    {
        let ptr = source.as_mut_ptr();
        rt.inc_ref(source.refcount_funcs(), ptr);
        SyncRef { obj: from_raw(ptr) }
    }

    /// Adopts a reference that the caller already holds on the object at
    /// `ptr`, unchecked as `Ref::from_raw` is.
    pub fn from_raw(ptr: RawPtr) -> (r: SyncRef<T>)
        ensures
            r.ptr() == ptr,
    {
        SyncRef { obj: from_raw(ptr) }
    }

    /// The object, borrowed for as long as the handle is.
    pub fn deref(&self) -> (obj: &T)
        ensures
            obj.raw() == self.ptr(),
    {
        &self.obj
    }

    /// Takes one more reference on the object and gives a second handle,
    /// which owns it.
    pub fn clone<R: Runtime>(&self, rt: &mut R) -> (r: SyncRef<T>)
        requires
            old(rt).state().live(self.ptr()),
            old(rt).state().counts[self.ptr()] < guint::MAX,
        ensures
            r.ptr() == self.ptr(),
            final(rt).state() == old(rt).state().inc(self.ptr()),
    {
        SyncRef::new(rt, &self.obj)
    }

    /// Makes this handle refer to the object of `source`, as
    /// `Ref::clone_from` does.
    pub fn clone_from<R: Runtime>(&mut self, rt: &mut R, source: &SyncRef<T>)
        requires
            old(rt).state().live(old(self).ptr()),
            old(rt).state().live(source.ptr()),
            old(self).ptr() != source.ptr() ==> old(rt).state().counts[source.ptr()] < guint::MAX,
        ensures
            final(self).ptr() == source.ptr(),
            old(self).ptr() == source.ptr() ==> final(rt).state() == old(rt).state(),
            old(self).ptr() != source.ptr() ==> final(rt).state() == old(rt).state().inc(
                source.ptr(),
            ).dec(old(self).ptr()),
    {
        let target = self.obj.as_mut_ptr();
        let adopted = source.obj.as_mut_ptr();
        if target != adopted {
            rt.inc_ref(source.obj.refcount_funcs(), adopted);
            rt.dec_ref(self.obj.refcount_funcs(), target);
            self.obj = from_raw(adopted);
        }
    }

    /// Ends the handle: its reference is given up, once.
    pub fn drop<R: Runtime>(self, rt: &mut R)
        requires
            old(rt).state().live(self.ptr()),
        ensures
            final(rt).state() == old(rt).state().dec(self.ptr()),
    {
        rt.dec_ref(self.obj.refcount_funcs(), self.obj.as_mut_ptr());
    }
}

/// A borrowed reference to a foreign object: it takes and gives up no
/// reference, and is good for as long as the owner that it was borrowed
/// from.
pub struct Unowned<'a, T: Refcount> {
    obj: T,
    lifetime_marker: PhantomData<&'a T>,
}

impl<'a, T: Refcount> Unowned<'a, T> {
    /// The object that is referred to.
    pub closed spec fn ptr(&self) -> RawPtr {
        self.obj.raw()
    }

    /// Borrows the object behind `source`.
    pub fn new(source: &'a T) -> (unowned: Unowned<'a, T>)
        ensures
            unowned.ptr() == source.raw(),
    {
        Unowned { obj: from_raw(source.as_ptr()), lifetime_marker: PhantomData }
    }

    /// Takes a reference on the object, and gives the handle that owns
    /// it.
    pub fn new_ref<R: Runtime>(&self, rt: &mut R) -> (r: Ref<T>)
        requires
            old(rt).state().live(self.ptr()),
            old(rt).state().counts[self.ptr()] < guint::MAX,
        ensures
            r.ptr() == self.ptr(),
            final(rt).state() == old(rt).state().inc(self.ptr()),
    {
        Ref::new(rt, &self.obj)
    }

    /// The object.
    pub fn deref(&self) -> (obj: &T)
        ensures
            obj.raw() == self.ptr(),
    {
        &self.obj
    }
}

/// The handle that owns the reference which the caller holds on the
/// object at `p`, unchecked as `Ref::from_raw` is.
pub fn ref_from_ptr<T: Refcount>(p: RawPtr) -> (r: Ref<T>)
    ensures
        r.ptr() == p,
{
    Ref::from_raw(p)
}

/// Ends the handle without giving up its reference, which passes to the
/// caller with the pointer.
pub fn ref_into_raw<T: Refcount>(r: Ref<T>) -> (ptr: RawPtr)
    ensures
        ptr == r.ptr(),
{
    r.obj.as_mut_ptr()
}

/// What a program does to its handles, one step at a time.
pub enum Step {
    /// A handle is made that takes a reference of its own on the object:
    /// what `new` and `clone` do.
    Acquire(RawPtr),
    /// A handle on the object ends: what `drop` does.
    Release(RawPtr),
    /// A handle on `target` is made to refer to `source`, on which another
    /// handle stands: what `clone_from` does.
    Assign { target: RawPtr, source: RawPtr },
}

/// The references on each object are those held by others, as `base`
/// counts them, and one more for each handle on it.
pub open spec fn balanced(state: State, handles: Multiset<RawPtr>, base: Map<RawPtr, nat>) -> bool {
    forall|p: RawPtr|
        #[trigger] state.ref_count(p) == handles.count(p) + (if base.contains_key(p) {
            base[p]
        } else {
            0
        })
}

/// The step can be taken: a reference is taken only on a live object, and
/// only a handle that exists is ended or assigned to or from.
pub open spec fn enabled(state: State, handles: Multiset<RawPtr>, step: Step) -> bool {
    match step {
        Step::Acquire(p) => state.live(p),
        Step::Release(p) => handles.count(p) > 0,
        Step::Assign { target, source } => handles.count(target) > 0 && handles.count(source) > 0
            && (target == source ==> handles.count(target) > 1),
    }
}

/// What the step makes of the runtime's state, as the contracts of the
/// handles say.
pub open spec fn state_after(state: State, step: Step) -> State {
    match step {
        Step::Acquire(p) => state.inc(p),
        Step::Release(p) => state.dec(p),
        Step::Assign { target, source } => if target == source {
            state
        } else {
            state.inc(source).dec(target)
        },
    }
}

/// The handles that there are after the step.
pub open spec fn handles_after(handles: Multiset<RawPtr>, step: Step) -> Multiset<RawPtr> {
    match step {
        Step::Acquire(p) => handles.insert(p),
        Step::Release(p) => handles.remove(p),
        Step::Assign { target, source } => handles.remove(target).insert(source),
    }
}

/// The state after the steps, taken in order.
pub open spec fn state_after_all(state: State, steps: Seq<Step>) -> State
    decreases steps.len(),
{
    if steps.len() == 0 {
        state
    } else {
        state_after(state_after_all(state, steps.drop_last()), steps.last())
    }
}

/// The handles after the steps, taken in order.
pub open spec fn handles_after_all(handles: Multiset<RawPtr>, steps: Seq<Step>) -> Multiset<RawPtr>
    decreases steps.len(),
{
    if steps.len() == 0 {
        handles
    } else {
        handles_after(handles_after_all(handles, steps.drop_last()), steps.last())
    }
}

/// Every step can be taken when its turn comes.
pub open spec fn all_enabled(state: State, handles: Multiset<RawPtr>, steps: Seq<Step>) -> bool
    decreases steps.len(),
{
    steps.len() > 0 ==> all_enabled(state, handles, steps.drop_last()) && enabled(
        state_after_all(state, steps.drop_last()),
        handles_after_all(handles, steps.drop_last()),
        steps.last(),
    )
}

/// While the references are in balance, every object with a handle on it
/// is live: none is destroyed before its last handle ends.
pub proof fn lemma_handles_keep_alive(
    state: State,
    handles: Multiset<RawPtr>,
    base: Map<RawPtr, nat>,
    p: RawPtr,
)
    requires
        balanced(state, handles, base),
        handles.count(p) > 0,
    ensures
        state.live(p),
{
    assert(state.ref_count(p) > 0);
}

/// A step keeps the references in balance: it takes or gives up exactly as
/// many references on each object as it makes or ends handles on it. An
/// object is destroyed by the step exactly when the step ends the last
/// handle on it and nobody else holds a reference.
pub proof fn lemma_step_keeps_balance(
    state: State,
    handles: Multiset<RawPtr>,
    base: Map<RawPtr, nat>,
    step: Step,
)
    requires
        balanced(state, handles, base),
        enabled(state, handles, step),
    ensures
        balanced(state_after(state, step), handles_after(handles, step), base),
        step matches Step::Release(p) ==> (state_after(state, step).destroyed == (if handles.count(p)
            == 1 && !(base.contains_key(p) && base[p] > 0) {
            state.destroyed.push(p)
        } else {
            state.destroyed
        })),
        step is Acquire ==> state_after(state, step).destroyed == state.destroyed,
    decreases
            (if step is Assign {
                1nat
            } else {
                0nat
            }),
{
    let next = state_after(state, step);
    let held = handles_after(handles, step);
    match step {
        Step::Acquire(p) => {
            assert forall|q: RawPtr| #[trigger]
                next.ref_count(q) == held.count(q) + (if base.contains_key(q) {
                    base[q]
                } else {
                    0
                }) by {
                assert(state.ref_count(q) == handles.count(q) + (if base.contains_key(q) {
                    base[q]
                } else {
                    0
                }));
            }
        },
        Step::Release(p) => {
            assert(state.ref_count(p) > 0);
            assert forall|q: RawPtr| #[trigger]
                next.ref_count(q) == held.count(q) + (if base.contains_key(q) {
                    base[q]
                } else {
                    0
                }) by {
                assert(state.ref_count(q) == handles.count(q) + (if base.contains_key(q) {
                    base[q]
                } else {
                    0
                }));
            }
        },
        Step::Assign { target, source } => {
            if target != source {
                lemma_handles_keep_alive(state, handles, base, source);
                lemma_step_keeps_balance(state, handles, base, Step::Acquire(source));
                let mid = state.inc(source);
                let mid_held = handles.insert(source);
                lemma_step_keeps_balance(mid, mid_held, base, Step::Release(target));
                assert(mid_held.remove(target) =~= handles.remove(target).insert(source));
            } else {
                assert(held =~= handles);
            }
        },
    }
}

/// Whatever a program does with its handles, the references stay in
/// balance: on every object there are as many references as there are
/// handles on it, beside those that others hold.
pub proof fn lemma_balance(
    state: State,
    handles: Multiset<RawPtr>,
    base: Map<RawPtr, nat>,
    steps: Seq<Step>,
)
    requires
        balanced(state, handles, base),
        all_enabled(state, handles, steps),
    ensures
        balanced(state_after_all(state, steps), handles_after_all(handles, steps), base),
    decreases steps.len(),
{
    if steps.len() > 0 {
        lemma_balance(state, handles, base, steps.drop_last());
        lemma_step_keeps_balance(
            state_after_all(state, steps.drop_last()),
            handles_after_all(handles, steps.drop_last()),
            base,
            steps.last(),
        );
    }
}

/// To assign a handle the object that it refers to already changes
/// nothing: no reference is taken and none is given up.
pub proof fn lemma_self_assignment(state: State, handles: Multiset<RawPtr>, p: RawPtr)
    requires
        handles.count(p) > 0,
    ensures
        state_after(state, Step::Assign { target: p, source: p }) == state,
        handles_after(handles, Step::Assign { target: p, source: p }) == handles,
{
    assert(handles.remove(p).insert(p) =~= handles);
}

} // verus!
