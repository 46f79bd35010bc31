use vstd::prelude::*;

use crate::{Blocking, EffectResult, Effective, Ending, Single};

verus! {

/// The one value a deterministic call of `f` can return.
pub open spec fn call_value<F: FnOnce() -> R, R>(f: F) -> R {
    choose|r: R| call_ensures(f, (), r)
}

/// Whether `f` may be called and every call agrees on its result.
pub open spec fn call_determined<F: FnOnce() -> R, R>(f: F) -> bool {
    &&& call_requires(f, ())
    &&& forall|r: R| call_ensures(f, (), r) ==> r == call_value(f)
}

/// Create a computation that produces a single value, no failures and no
/// suspension, by running the given function once.
pub fn from_fn_once<F: FnOnce() -> R, R>(f: F) -> (r: FromFnOnce<F, R>)
    ensures
        call_determined(f) ==> r.wf(),
        r.remaining() == seq![call_value(f)],
        r.ending() is Finishes,
{
    FromFnOnce { inner: Some(f), output: core::marker::PhantomData }
}

/// Produced by [`from_fn_once`].
pub struct FromFnOnce<F, R> {
    pub inner: Option<F>,
    pub output: core::marker::PhantomData<R>,
}

impl<F: FnOnce() -> R, R> Effective for FromFnOnce<F, R> {
    type Item = R;

    type Failure = core::convert::Infallible;

    type Produces = Single;

    type Async = Blocking;

    open spec fn wf(&self) -> bool {
        match self.inner {
            Some(f) => call_determined(f),
            None => false,
        }
    }

    open spec fn remaining(&self) -> Seq<R> {
        match self.inner {
            Some(f) => seq![call_value(f)],
            None => Seq::empty(),
        }
    }

    open spec fn ending(&self) -> Ending<core::convert::Infallible> {
        Ending::Finishes
    }

    proof fn model_invariants(&self) {
        assert(self.remaining().len() == 1);
        assert(self.ending() is Finishes);
    }

    fn poll_effect(&mut self) -> (r: EffectResult<R, core::convert::Infallible, Single, Blocking>) {
        let f = match self.inner.take() {
            Some(f) => f,
            None => vstd::pervasive::unreached(),
        };
        let x = f();
        EffectResult::Item(x)
    }
}

} // verus!
