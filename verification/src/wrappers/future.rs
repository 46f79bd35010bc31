use vstd::prelude::*;

use crate::{Async, EffectResult, Effective, Ending, Single};

verus! {

/// Create a computation with no failures and a single value that suspends.
///
/// The host's native suspendable value is modelled by the value it resolves to
/// together with the number of polls that still report `Pending` before it is
/// ready; suspension is observable only in timing, never in the produced
/// value.
pub fn future<T>(t: T, pending_polls: usize) -> (r: FromFuture<T>)
    ensures
        r.wf(),
        r.remaining() == seq![t],
        r.ending() is Finishes,
        r.pending_polls == pending_polls,
{
    FromFuture { inner: Some(t), pending_polls }
}

/// Produced by [`future`].
pub struct FromFuture<T> {
    pub inner: Option<T>,
    pub pending_polls: usize,
}

impl<T> Effective for FromFuture<T> {
    type Item = T;

    type Failure = core::convert::Infallible;

    type Produces = Single;

    type Async = Async;

    open spec fn wf(&self) -> bool {
        self.inner is Some
    }

    open spec fn remaining(&self) -> Seq<T> {
        match self.inner {
            Some(t) => seq![t],
            None => Seq::empty(),
        }
    }

    open spec fn ending(&self) -> Ending<core::convert::Infallible> {
        Ending::Finishes
    }

    proof fn model_invariants(&self) {
        assert(self.remaining().len() == 1);
        assert(self.ending() is Finishes);
    }

    fn poll_effect(&mut self) -> (r: EffectResult<T, core::convert::Infallible, Single, Async>) {
        if self.pending_polls > 0 {
            self.pending_polls = self.pending_polls - 1;
            EffectResult::Pending(Async)
        } else {
            match self.inner.take() {
                Some(t) => EffectResult::Item(t),
                None => vstd::pervasive::unreached(),
            }
        }
    }
}

} // verus!
