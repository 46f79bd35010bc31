use vstd::prelude::*;

use crate::{Blocking, EffectResult, Effective, Ending, Single};

verus! {

/// Create a computation that produces one value, cannot fail and never
/// suspends.
pub fn once<T>(t: T) -> (r: Once<T>)
    ensures
        r.wf(),
        r.remaining() == seq![t],
        r.ending() is Finishes,
{
    Once { inner: Some(t) }
}

/// Produced by [`once`].
pub struct Once<T> {
    pub inner: Option<T>,
}

impl<T> Effective for Once<T> {
    type Item = T;

    type Failure = core::convert::Infallible;

    type Produces = Single;

    type Async = Blocking;

    open spec fn wf(&self) -> bool {
        self.inner is Some
    }

    open spec fn remaining(&self) -> Seq<T> {
        match self.inner {
            Some(t) => seq![t],
            None => Seq::empty(),
        }
    }

    open spec fn ending(&self) -> Ending<core::convert::Infallible> {
        Ending::Finishes
    }

    proof fn model_invariants(&self) {
        assert(self.inner is Some);
        assert(self.remaining().len() == 1);
        assert(self.ending() is Finishes);
    }

    fn poll_effect(&mut self) -> (r: EffectResult<T, core::convert::Infallible, Single, Blocking>) {
        match self.inner.take() {
            Some(t) => EffectResult::Item(t),
            None => vstd::pervasive::unreached(),
        }
    }
}

} // verus!
