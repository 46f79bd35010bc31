//! The combinator that subtracts the multiplicity capability by running a
//! child computation for every item and discarding the running value.
//!
//! The same two-mode machine as a fold, specialised to an accumulator of no
//! information; the child computation may itself produce several values, in
//! which case the machine stays in the reducing mode until the child is done.

use vstd::prelude::*;

use crate::impls::fold::child_fails;
use crate::impls::map::{map_determined, map_value};
use crate::utils::{AsyncPair, AsyncWith, FalliblePair, FallibleWith};
use crate::{EffectResult, Effective, Ending, Fallible, Iterable, Multiple, Single};

verus! {

/// Every child computation the function can return is well-formed.
pub open spec fn children_wf<F: Fn(X) -> C, X, C: Effective>(f: F) -> bool {
    forall|x: X, c: C| call_ensures(f, (x,), c) ==> c.wf()
}

/// How running a child for every item of `xs` ends: with the first failure
/// of the driver or of a child, widened into the combined channel.
pub open spec fn for_each_ending<E: Effective, F: Fn(E::Item) -> C, C: Effective>(
    f: F,
    xs: Seq<<E as Effective>::Item>,
    oend: Ending<<E as Effective>::Failure>,
) -> Ending<FalliblePair<E, C>> where E::Failure: FallibleWith<<C as Effective>::Failure>
    decreases xs.len(),
{
    if xs.len() == 0 {
        match oend {
            Ending::Finishes => Ending::Finishes,
            Ending::Fails(g) => Ending::Fails(g.spec_into_fail()),
        }
    } else {
        let c = map_value(f, xs[0]);
        if child_fails(c) {
            Ending::Fails(
                <E::Failure as FallibleWith<<C as Effective>::Failure>>::spec_from_fail(
                    c.ending()->0,
                ),
            )
        } else {
            for_each_ending::<E, F, C>(f, xs.drop_first(), oend)
        }
    }
}

/// Running children that cannot fail over a driver that cannot fail
/// finishes.
pub proof fn lemma_for_each_infallible<E: Effective, F: Fn(E::Item) -> C, C: Effective>(
    f: F,
    xs: Seq<<E as Effective>::Item>,
    oend: Ending<<E as Effective>::Failure>,
) where E::Failure: FallibleWith<<C as Effective>::Failure>
    requires
        oend is Finishes,
        !<<C as Effective>::Failure as Fallible>::fallible(),
    ensures
        for_each_ending::<E, F, C>(f, xs, oend) is Finishes,
    decreases xs.len(),
{
    if xs.len() > 0 {
        lemma_for_each_infallible::<E, F, C>(f, xs.drop_first(), oend);
    }
}

/// The two modes of a for-each in flight.
pub enum State<C> {
    /// Pulling the next item.
    Acc,
    /// Driving the child computation for the last pulled item.
    Eff { eff: C },
}

/// Produced by the [`for_each()`](crate::impls::EffectiveExt::for_each)
/// method.
pub struct ForEach<E, F, C> {
    pub inner: E,
    pub func: F,
    pub state: State<C>,
}

impl<E, F, C> Effective for ForEach<E, F, C> where
    E: Effective<Produces = Multiple>,
    F: Fn(E::Item) -> C,
    C: Effective<Item = ()>,
    E::Async: AsyncWith<<C as Effective>::Async>,
    E::Failure: FallibleWith<<C as Effective>::Failure>,
 {
    type Item = ();

    type Failure = FalliblePair<E, C>;

    type Produces = Single;

    type Async = AsyncPair<E, C>;

    open spec fn wf(&self) -> bool {
        &&& self.inner.wf()
        &&& map_determined(self.func, self.inner.remaining())
        &&& children_wf(self.func)
        &&& match self.state {
            State::Acc => true,
            State::Eff { eff } => eff.wf(),
        }
    }

    open spec fn remaining(&self) -> Seq<()> {
        if self.ending() is Finishes {
            seq![()]
        } else {
            Seq::empty()
        }
    }

    open spec fn ending(&self) -> Ending<FalliblePair<E, C>> {
        match self.state {
            State::Acc => for_each_ending::<E, F, C>(
                self.func,
                self.inner.remaining(),
                self.inner.ending(),
            ),
            State::Eff { eff } => if child_fails(eff) {
                Ending::Fails(
                    <E::Failure as FallibleWith<<C as Effective>::Failure>>::spec_from_fail(
                        eff.ending()->0,
                    ),
                )
            } else {
                for_each_ending::<E, F, C>(
                    self.func,
                    self.inner.remaining(),
                    self.inner.ending(),
                )
            },
        }
    }

    proof fn model_invariants(&self) {
        <E::Failure as FallibleWith<<C as Effective>::Failure>>::fallible_or();
        self.inner.model_invariants();
        if !<FalliblePair<E, C> as Fallible>::fallible() {
            lemma_for_each_infallible::<E, F, C>(
                self.func,
                self.inner.remaining(),
                self.inner.ending(),
            );
            assert(self.ending() is Finishes);
        }
        if self.ending() is Finishes {
            assert(self.remaining().len() == 1);
        } else {
            assert(self.remaining().len() == 0);
        }
    }

    fn poll_effect(&mut self) -> (r: EffectResult<
        (),
        FalliblePair<E, C>,
        Single,
        AsyncPair<E, C>,
    >) {
        proof {
            <E::Async as AsyncWith<<C as Effective>::Async>>::async_or();
            <E::Failure as FallibleWith<<C as Effective>::Failure>>::fallible_or();
        }
        loop
            invariant
                self.wf(),
                self.remaining() == old(self).remaining(),
                self.ending() == old(self).ending(),
            decreases self.inner.remaining().len(), (if self.state is Eff {
                1int
            } else {
                0int
            }), (match self.state {
                State::Eff { eff } => eff.remaining().len() as int,
                State::Acc => 0int,
            }),
        {
            proof {
                <E::Async as AsyncWith<<C as Effective>::Async>>::async_or();
                <E::Failure as FallibleWith<<C as Effective>::Failure>>::fallible_or();
            }
            let ghost pre = *self;
            let in_acc = matches!(self.state, State::Acc);
            if in_acc {
                match self.inner.poll_effect() {
                    EffectResult::Item(x) => {
                        let eff = (self.func)(x);
                        self.state = State::Eff { eff };
                        proof {
                            assert(eff == map_value(self.func, x));
                            assert forall|i: int|
                                0 <= i < self.inner.remaining().len() implies call_requires(
                                self.func,
                                (self.inner.remaining()[i],),
                            ) by {
                                assert(self.inner.remaining()[i]
                                    == pre.inner.remaining()[i + 1]);
                            }
                            assert(self.ending() == pre.ending());
                            assert(self.remaining() == pre.remaining());
                        }
                    },
                    EffectResult::Failure(f) => {
                        return EffectResult::Failure(
                            <E::Failure as FallibleWith<<C as Effective>::Failure>>::into_fail(f),
                        );
                    },
                    EffectResult::Done(_) => {
                        return EffectResult::Item(());
                    },
                    EffectResult::Pending(a) => {
                        return EffectResult::Pending(
                            <E::Async as AsyncWith<<C as Effective>::Async>>::into_async(a),
                        );
                    },
                }
            } else {
                let r = match &mut self.state {
                    State::Eff { eff } => {
                        proof {
                            eff.model_invariants();
                        }
                        eff.poll_effect()
                    },
                    State::Acc => vstd::pervasive::unreached(),
                };
                match r {
                    EffectResult::Item(_u) => {
                        if !<<C as Effective>::Produces as Iterable>::multiple_flag() {
                            proof {
                                let c_pre = pre.state->Eff_eff;
                                assert(c_pre.ending() is Finishes);
                                assert(!child_fails(c_pre));
                            }
                            self.state = State::Acc;
                            proof {
                                assert(self.ending() == pre.ending());
                            }
                        }
                    },
                    EffectResult::Failure(g) => {
                        return EffectResult::Failure(
                            <E::Failure as FallibleWith<<C as Effective>::Failure>>::from_fail(g),
                        );
                    },
                    EffectResult::Done(_) => {
                        self.state = State::Acc;
                        proof {
                            assert(self.ending() == pre.ending());
                        }
                    },
                    EffectResult::Pending(a) => {
                        return EffectResult::Pending(
                            <E::Async as AsyncWith<
                                <C as Effective>::Async,
                            >>::from_async(a),
                        );
                    },
                }
            }
        }
    }
}

} // verus!
