use vstd::prelude::*;

use crate::{Blocking, EffectResult, Effective, Ending, Fallible, SimpleTry, Single};

verus! {

/// Create a computation with a single value and no suspension whose failure
/// channel is the break type itself, which must already be a failure channel.
pub fn from_try<T: SimpleTry>(t: T) -> (r: FromTry<T>)
    where
        T::Break: Fallible,
    ensures
        <T::Break as Fallible>::fallible() || t.is_continue() ==> r.wf(),
        r.remaining() == if t.is_continue() {
            seq![t.continue_of()]
        } else {
            Seq::<T::Continue>::empty()
        },
        !t.is_continue() ==> r.ending() == Ending::Fails(t.break_of()),
        t.is_continue() ==> r.ending() is Finishes,
{
    FromTry { inner: Some(t) }
}

/// Produced by [`from_try`].
pub struct FromTry<T> {
    pub inner: Option<T>,
}

impl<T: SimpleTry> Effective for FromTry<T> where T::Break: Fallible {
    type Item = T::Continue;

    type Failure = T::Break;

    type Produces = Single;

    type Async = Blocking;

    open spec fn wf(&self) -> bool {
        match self.inner {
            Some(t) => <T::Break as Fallible>::fallible() || t.is_continue(),
            None => false,
        }
    }

    open spec fn remaining(&self) -> Seq<T::Continue> {
        match self.inner {
            Some(t) => if t.is_continue() {
                seq![t.continue_of()]
            } else {
                Seq::empty()
            },
            None => Seq::empty(),
        }
    }

    open spec fn ending(&self) -> Ending<T::Break> {
        match self.inner {
            Some(t) => if t.is_continue() {
                Ending::Finishes
            } else {
                Ending::Fails(t.break_of())
            },
            None => Ending::Finishes,
        }
    }

    proof fn model_invariants(&self) {
        match self.inner {
            Some(t) => {
                if t.is_continue() {
                    assert(self.remaining().len() == 1);
                    assert(self.ending() is Finishes);
                } else {
                    assert(<T::Break as Fallible>::fallible());
                    assert(self.remaining().len() == 0);
                    assert(self.ending() is Fails);
                }
            },
            None => {
            },
        }
    }

    fn poll_effect(&mut self) -> (r: EffectResult<T::Continue, T::Break, Single, Blocking>) {
        let x = match self.inner.take() {
            Some(t) => t,
            None => vstd::pervasive::unreached(),
        };
        match x.branch() {
            core::ops::ControlFlow::Continue(c) => EffectResult::Item(c),
            core::ops::ControlFlow::Break(b) => EffectResult::Failure(b),
        }
    }
}

} // verus!
