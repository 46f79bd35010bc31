use vstd::prelude::*;

use crate::{Blocking, EffectResult, Effective, Ending, Failure, Fallible, SimpleTry, Single};

verus! {

/// Create a computation with a failure channel, a single value and no
/// suspension, from a value that either continues or breaks.
pub fn fallible<T: SimpleTry>(t: T) -> (r: FromFallible<T>)
    ensures
        r.wf(),
        r.remaining() == if t.is_continue() {
            seq![t.continue_of()]
        } else {
            Seq::<T::Continue>::empty()
        },
        r.ending() == if t.is_continue() {
            Ending::<Failure<T::Break>>::Finishes
        } else {
            Ending::Fails(Failure(t.break_of()))
        },
{
    FromFallible { inner: Some(t) }
}

/// Produced by [`fallible`].
pub struct FromFallible<T> {
    pub inner: Option<T>,
}

impl<T: SimpleTry> Effective for FromFallible<T> {
    type Item = T::Continue;

    type Failure = Failure<T::Break>;

    type Produces = Single;

    type Async = Blocking;

    open spec fn wf(&self) -> bool {
        self.inner is Some
    }

    open spec fn remaining(&self) -> Seq<T::Continue> {
        match self.inner {
            Some(t) => if t.is_continue() {
                seq![t.continue_of()]
            } else {
                Seq::empty()
            },
            None => Seq::empty(),
        }
    }

    open spec fn ending(&self) -> Ending<Failure<T::Break>> {
        match self.inner {
            Some(t) => if t.is_continue() {
                Ending::Finishes
            } else {
                Ending::Fails(Failure(t.break_of()))
            },
            None => Ending::Finishes,
        }
    }

    proof fn model_invariants(&self) {
        match self.inner {
            Some(t) => {
                if t.is_continue() {
                    assert(self.remaining().len() == 1);
                    assert(self.ending() is Finishes);
                } else {
                    assert(<Failure<T::Break> as Fallible>::fallible());
                    assert(self.remaining().len() == 0);
                    assert(self.ending() is Fails);
                }
            },
            None => {
            },
        }
    }

    fn poll_effect(&mut self) -> (r: EffectResult<
        T::Continue,
        Failure<T::Break>,
        Single,
        Blocking,
    >) {
        let x = match self.inner.take() {
            Some(t) => t,
            None => vstd::pervasive::unreached(),
        };
        match x.branch() {
            core::ops::ControlFlow::Continue(c) => EffectResult::Item(c),
            core::ops::ControlFlow::Break(b) => EffectResult::Failure(Failure(b)),
        }
    }
}

} // verus!
