//! The event loop of the foreign runtime, as far as the handles reach into
//! it: its contexts, loops and sources are counted objects with counting
//! functions of their own.

use core::marker::PhantomData;
use vstd::prelude::*;
use crate::refcount::{ref_into_raw, Ref, Refcount, RefcountFuncs, SyncRef, Threadsafe};
use crate::runtime::Runtime;
use crate::types::{gboolean, gint, guint, FALSE, TRUE};
use crate::wrap::{RawPtr, Wrapper};

verus! {

pub const PRIORITY_DEFAULT: gint = 0;

pub const PRIORITY_DEFAULT_IDLE: gint = 200;

pub const PRIORITY_HIGH: gint = -100;

pub const PRIORITY_HIGH_IDLE: gint = 100;

pub const PRIORITY_LOW: gint = 300;

/// What a callback of an event source asks for when it returns: to be
/// removed from its source, or to be called again.
#[derive(Clone, Copy, PartialEq, Eq, Structural, Debug)]
pub enum CallbackResult {
    Remove,
    Continue,
}

impl CallbackResult {
    /// What the foreign side is told for the result: it goes on calling for
    /// as long as it is told true.
    pub fn to_gboolean(self) -> (v: gboolean)
        ensures
            v == (match self {
                CallbackResult::Remove => FALSE,
                CallbackResult::Continue => TRUE,
            }),
    {
        match self {
            CallbackResult::Remove => FALSE,
            CallbackResult::Continue => TRUE,
        }
    }
}

/// A main context: a set of event sources that one loop dispatches.
pub struct MainContext {
    pub raw: RawPtr,
}

/// A main loop.
pub struct MainLoop {
    pub raw: RawPtr,
}

/// An event source that is not attached to a context yet, with the kind of
/// callback it takes.
pub struct Source<C> {
    pub raw: RawPtr,
    pub phantom_data: PhantomData<C>,
}

/// An event source that is attached to a context.
pub struct AttachedSource<C> {
    pub source: Source<C>,
}

impl Wrapper for MainContext {
    open spec fn raw(&self) -> RawPtr {
        self.raw
    }

    fn as_ptr(&self) -> (p: RawPtr) {
        self.raw
    }

    fn as_mut_ptr(&self) -> (p: RawPtr) {
        self.raw
    }

    fn wrap(ptr: RawPtr) -> (w: Self) {
        MainContext { raw: ptr }
    }
}

impl Wrapper for MainLoop {
    open spec fn raw(&self) -> RawPtr {
        self.raw
    }

    fn as_ptr(&self) -> (p: RawPtr) {
        self.raw
    }

    fn as_mut_ptr(&self) -> (p: RawPtr) {
        self.raw
    }

    fn wrap(ptr: RawPtr) -> (w: Self) {
        MainLoop { raw: ptr }
    }
}

impl<C> Wrapper for Source<C> {
    open spec fn raw(&self) -> RawPtr {
        self.raw
    }

    fn as_ptr(&self) -> (p: RawPtr) {
        self.raw
    }

    fn as_mut_ptr(&self) -> (p: RawPtr) {
        self.raw
    }

    fn wrap(ptr: RawPtr) -> (w: Self) {
        Source { raw: ptr, phantom_data: PhantomData }
    }
}

impl<C> Wrapper for AttachedSource<C> {
    open spec fn raw(&self) -> RawPtr {
        self.source.raw
    }

    fn as_ptr(&self) -> (p: RawPtr) {
        self.source.raw
    }

    fn as_mut_ptr(&self) -> (p: RawPtr) {
        self.source.raw
    }

    fn wrap(ptr: RawPtr) -> (w: Self) {
        AttachedSource { source: Source { raw: ptr, phantom_data: PhantomData } }
    }
}

impl Refcount for MainContext {
    open spec fn funcs() -> RefcountFuncs {
        RefcountFuncs::MainContext
    }

    fn refcount_funcs(&self) -> (funcs: RefcountFuncs) {
        RefcountFuncs::MainContext
    }
}

impl Refcount for MainLoop {
    open spec fn funcs() -> RefcountFuncs {
        RefcountFuncs::MainLoop
    }

    fn refcount_funcs(&self) -> (funcs: RefcountFuncs) {
        RefcountFuncs::MainLoop
    }
}

impl<C> Refcount for Source<C> {
    open spec fn funcs() -> RefcountFuncs {
        RefcountFuncs::Source
    }

    fn refcount_funcs(&self) -> (funcs: RefcountFuncs) {
        RefcountFuncs::Source
    }
}

impl<C> Refcount for AttachedSource<C> {
    open spec fn funcs() -> RefcountFuncs {
        RefcountFuncs::Source
    }

    fn refcount_funcs(&self) -> (funcs: RefcountFuncs) {
        RefcountFuncs::Source
    }
}

impl Threadsafe for MainContext {
}

impl Threadsafe for MainLoop {
}

impl<C> Threadsafe for AttachedSource<C> {
}

impl<C> AttachedSource<C> {
    /// The source, as which an attached source can still be used.
    pub fn as_source(&self) -> (source: &Source<C>)
        ensures
            source.raw() == self.raw(),
    {
        &self.source
    }
}

/// The handle on a source, once the foreign side has attached the source
/// to a context: the same reference on the same object, now known to be
/// attached.
pub fn into_attached<C>(source: Ref<Source<C>>) -> (attached: Ref<AttachedSource<C>>)
    ensures
        attached.ptr() == source.ptr(),
{
    Ref::from_raw(ref_into_raw(source))
}

/// What runs a main loop on the thread that made it. It holds one reference
/// on the loop.
pub struct LoopRunner {
    mainloop: RawPtr,
}

impl LoopRunner {
    /// The loop that the runner runs.
    pub closed spec fn ptr(&self) -> RawPtr {
        self.mainloop
    }

    /// The runner of the loop at `mainloop`, whose reference on the loop it
    /// takes over from the caller.
    pub fn from_raw(mainloop: RawPtr) -> (runner: LoopRunner)
        ensures
            runner.ptr() == mainloop,
    {
        LoopRunner { mainloop }
    }

    /// The loop itself, for the foreign calls that run it.
    pub fn as_ptr(&self) -> (p: RawPtr)
        ensures
            p == self.ptr(),
    {
        self.mainloop
    }

    /// A handle on the loop, with a reference of its own, that other
    /// threads may use to stop the loop.
    pub fn ref_loop<R: Runtime>(&self, rt: &mut R) -> (r: SyncRef<MainLoop>)
        requires
            old(rt).state().live(self.ptr()),
            old(rt).state().counts[self.ptr()] < guint::MAX,
        ensures
            r.ptr() == self.ptr(),
            final(rt).state() == old(rt).state().inc(self.ptr()),
    {
        SyncRef::new(rt, &MainLoop { raw: self.mainloop })
    }

    /// Ends the runner: its reference on the loop is given up.
    pub fn drop<R: Runtime>(self, rt: &mut R)
        requires
            old(rt).state().live(self.ptr()),
        ensures
            final(rt).state() == old(rt).state().dec(self.ptr()),
    {
        rt.dec_ref(RefcountFuncs::MainLoop, self.mainloop);
    }
}

/// A main loop that is local to a thread, held by one reference.
pub struct EventLoop {
    raw: RawPtr,
}

impl EventLoop {
    /// The loop that is held.
    pub closed spec fn ptr(&self) -> RawPtr {
        self.raw
    }

    /// Holds the loop at `raw`, whose reference it takes over from the
    /// caller.
    pub fn from_raw(raw: RawPtr) -> (l: EventLoop)
        ensures
            l.ptr() == raw,
    {
        EventLoop { raw }
    }

    /// The loop itself, for the foreign calls that run and stop it.
    pub fn as_ptr(&self) -> (p: RawPtr)
        ensures
            p == self.ptr(),
    {
        self.raw
    }

    /// A second holder of the same loop, with a reference of its own.
    pub fn clone<R: Runtime>(&self, rt: &mut R) -> (copy: EventLoop)
        requires
            old(rt).state().live(self.ptr()),
            old(rt).state().counts[self.ptr()] < guint::MAX,
        ensures
            copy.ptr() == self.ptr(),
            final(rt).state() == old(rt).state().inc(self.ptr()),
    {
        rt.inc_ref(RefcountFuncs::MainLoop, self.raw);
        EventLoop { raw: self.raw }
    }

    /// Ends the holder: its reference on the loop is given up.
    pub fn finalize<R: Runtime>(self, rt: &mut R)
        requires
            old(rt).state().live(self.ptr()),
        ensures
            final(rt).state() == old(rt).state().dec(self.ptr()),
    {
        rt.dec_ref(RefcountFuncs::MainLoop, self.raw);
    }
}

/// A loop that runs tasks: it is set up with access to its context, then
/// runs until it is told to quit.
pub trait TaskLoop {
    fn run_after<F: FnOnce(&MainContext)>(&mut self, setup: F)
        requires
            forall|ctx: &MainContext| call_requires(setup, (ctx,)),
    ;

    fn quit(&mut self);
}

} // verus!
