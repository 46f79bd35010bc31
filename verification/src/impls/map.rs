//! The combinator that transforms produced values, leaving every capability
//! unchanged.

use vstd::prelude::*;

use crate::{EffectResult, Effective, Ending};

verus! {

/// The one value a deterministic transformation can return for `x`.
pub open spec fn map_value<F: Fn(A) -> R, A, R>(f: F, x: A) -> R {
    choose|r: R| call_ensures(f, (x,), r)
}

/// Whether `f` may be applied to every element of `xs` and is a pure
/// transformation: every call on the same argument agrees on its result.
pub open spec fn map_determined<F: Fn(A) -> R, A, R>(f: F, xs: Seq<A>) -> bool {
    &&& forall|i: int| 0 <= i < xs.len() ==> call_requires(f, (xs[i],))
    &&& forall|x: A, r: R| call_ensures(f, (x,), r) ==> r == map_value(f, x)
}

/// Produced by the [`map()`](crate::impls::EffectiveExt::map) method.
pub struct Mapped<E, F, R> {
    pub inner: E,
    pub map: F,
    pub output: core::marker::PhantomData<R>,
}

impl<R, E: Effective, F: Fn(E::Item) -> R> Effective for Mapped<E, F, R> {
    type Item = R;

    type Failure = E::Failure;

    type Produces = E::Produces;

    type Async = E::Async;

    open spec fn wf(&self) -> bool {
        &&& self.inner.wf()
        &&& map_determined(self.map, self.inner.remaining())
    }

    open spec fn remaining(&self) -> Seq<R> {
        self.inner.remaining().map_values(|x: E::Item| map_value(self.map, x))
    }

    open spec fn ending(&self) -> Ending<E::Failure> {
        self.inner.ending()
    }

    proof fn model_invariants(&self) {
        self.inner.model_invariants();
        assert(self.remaining().len() == self.inner.remaining().len());
        assert(self.ending() == self.inner.ending());
    }

    fn poll_effect(&mut self) -> (r: EffectResult<R, E::Failure, E::Produces, E::Async>) {
        let ghost pre_items = self.inner.remaining();
        match self.inner.poll_effect() {
            EffectResult::Item(x) => {
                let y = (self.map)(x);
                proof {
                    if <E::Produces as crate::Iterable>::multiple() {
                        assert(self.inner.remaining() == pre_items.drop_first());
                        assert forall|i: int|
                            0 <= i < self.inner.remaining().len() implies call_requires(
                            self.map,
                            (self.inner.remaining()[i],),
                        ) by {
                            assert(self.inner.remaining()[i] == pre_items[i + 1]);
                        }
                        assert forall|i: int|
                            0 <= i < self.remaining().len() implies self.remaining()[i] == old(
                            self,
                        ).remaining().drop_first()[i] by {
                            assert(self.inner.remaining()[i] == pre_items[i + 1]);
                        }
                        assert(self.remaining() =~= old(self).remaining().drop_first());
                    }
                }
                EffectResult::Item(y)
            },
            EffectResult::Failure(f) => EffectResult::Failure(f),
            EffectResult::Done(p) => EffectResult::Done(p),
            EffectResult::Pending(a) => EffectResult::Pending(a),
        }
    }

    fn size_hint(&self) -> (r: (usize, Option<usize>)) {
        proof {
            assert(self.remaining().len() == self.inner.remaining().len());
        }
        self.inner.size_hint()
    }
}

} // verus!
