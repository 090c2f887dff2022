//! Callbacks that are called once, when a foreign operation completes.

use core::marker::PhantomData;
use vstd::prelude::*;

verus! {

/// A function to call once with arguments `Args`, for a result `Ret`.
#[verifier::reject_recursive_types(Args)]
#[verifier::reject_recursive_types(Ret)]
#[verifier::reject_recursive_types(F)]
pub struct AsyncCallback<Args, Ret, F: FnOnce(Args) -> Ret> {
    closure: F,
    marker: PhantomData<(Args, Ret)>,
}

impl<Args, Ret, F: FnOnce(Args) -> Ret> AsyncCallback<Args, Ret, F> {
    /// The function that the callback will call.
    pub closed spec fn func(&self) -> F {
        self.closure
    }

    pub fn new(func: F) -> (callback: Self)
        ensures
            callback.func() == func,
    {
        AsyncCallback { closure: func, marker: PhantomData }
    }

    /// Calls the function with `args`, which uses the callback up.
    pub fn invoke(self, args: Args) -> (ret: Ret)
        requires
            call_requires(self.func(), (args,)),
        ensures
            call_ensures(self.func(), (args,), ret),
    {
        (self.closure)(args)
    }
}

} // verus!
