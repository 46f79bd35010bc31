//! The combinator that subtracts the failure capability.
//!
//! The host-level escalation on an actual failure is a panic, so the verified
//! wrapper admits only computations whose model never fails; everything it
//! passes through is unchanged, only the capability type narrows.

use vstd::prelude::*;

use crate::{EffectResult, Effective, Ending};

verus! {

/// Produced by the [`unwrap()`](crate::impls::EffectiveExt::unwrap) method.
pub struct Unwrap<E> {
    pub inner: E,
}

impl<E: Effective> Effective for Unwrap<E> {
    type Item = E::Item;

    type Failure = core::convert::Infallible;

    type Produces = E::Produces;

    type Async = E::Async;

    open spec fn wf(&self) -> bool {
        &&& self.inner.wf()
        &&& self.inner.ending() is Finishes
    }

    open spec fn remaining(&self) -> Seq<E::Item> {
        self.inner.remaining()
    }

    open spec fn ending(&self) -> Ending<core::convert::Infallible> {
        Ending::Finishes
    }

    proof fn model_invariants(&self) {
        self.inner.model_invariants();
        assert(self.ending() is Finishes);
    }

    fn poll_effect(&mut self) -> (r: EffectResult<
        E::Item,
        core::convert::Infallible,
        E::Produces,
        E::Async,
    >) {
        match self.inner.poll_effect() {
            EffectResult::Item(x) => EffectResult::Item(x),
            EffectResult::Failure(_) => vstd::pervasive::unreached(),
            EffectResult::Done(p) => EffectResult::Done(p),
            EffectResult::Pending(a) => EffectResult::Pending(a),
        }
    }

    fn size_hint(&self) -> (r: (usize, Option<usize>)) {
        let (lower, upper) = self.inner.size_hint();
        if <E::Failure as crate::Fallible>::fallible_flag() {
            (0, upper)
        } else {
            (lower, upper)
        }
    }
}

} // verus!
