use vstd::prelude::*;

use crate::{Blocking, EffectResult, Effective, Ending, Multiple};

verus! {

/// Create a computation that produces the elements of `v` in order, cannot
/// fail and never suspends.
pub fn iterator<T>(v: Vec<T>) -> (r: FromIterator<T>)
    ensures
        r.wf(),
        r.remaining() == v@,
        r.ending() is Finishes,
{
    FromIterator { inner: v }
}

/// Produced by [`iterator`].
pub struct FromIterator<T> {
    pub inner: Vec<T>,
}

impl<T> Effective for FromIterator<T> {
    type Item = T;

    type Failure = core::convert::Infallible;

    type Produces = Multiple;

    type Async = Blocking;

    open spec fn wf(&self) -> bool {
        true
    }

    open spec fn remaining(&self) -> Seq<T> {
        self.inner@
    }

    open spec fn ending(&self) -> Ending<core::convert::Infallible> {
        Ending::Finishes
    }

    proof fn model_invariants(&self) {
        assert(self.ending() is Finishes);
    }

    fn poll_effect(&mut self) -> (r: EffectResult<
        T,
        core::convert::Infallible,
        Multiple,
        Blocking,
    >) {
        if self.inner.len() > 0 {
            let x = self.inner.remove(0);
            proof {
                assert(self.inner@ =~= old(self).inner@.drop_first());
            }
            EffectResult::Item(x)
        } else {
            EffectResult::Done(Multiple)
        }
    }

    fn size_hint(&self) -> (r: (usize, Option<usize>)) {
        let n = self.inner.len();
        (n, Some(n))
    }
}

} // verus!
