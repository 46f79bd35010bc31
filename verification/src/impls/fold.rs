//! The combinator that subtracts the multiplicity capability by reduction.
//!
//! A fold alternates two modes: *accumulating*, holding the running value and
//! waiting to pull the next item from the driving computation, and
//! *reducing*, polling the single-valued child computation obtained by
//! applying the reducer to the running value and the pulled item. The fold's
//! one produced value is the final running value; a failure of the driver or
//! of any child ends the fold with that failure, widened.

use vstd::prelude::*;

use crate::utils::{AsyncPair, AsyncWith, FalliblePair, FallibleWith};
use crate::{EffectResult, Effective, Ending, Fallible, Iterable, Multiple, Single};

verus! {

/// The one child computation a deterministic reducer can return.
pub open spec fn fold_step<F: Fn(B, X) -> C, B, X, C>(f: F, b: B, x: X) -> C {
    choose|c: C| call_ensures(f, (b, x), c)
}

/// Whether `f` is a pure reducer: every call on the same arguments agrees on
/// its result, and the result is a well-formed computation.
pub open spec fn fold_determined<F: Fn(B, X) -> C, B, X, C: Effective>(f: F) -> bool {
    forall|b: B, x: X, c: C|
        call_ensures(f, (b, x), c) ==> c == fold_step(f, b, x) && c.wf()
}

/// Whether a child computation ends in a failure. The capability guard keeps
/// the chain model honest for children that were never actually constructed.
pub open spec fn child_fails<C: Effective>(c: C) -> bool {
    <<C as Effective>::Failure as Fallible>::fallible() && c.ending() is Fails
}

/// The reducer may be applied along the whole chain of running values.
pub open spec fn fold_reqs<F: Fn(B, X) -> C, B, X, C: Effective<Item = B>>(
    f: F,
    b: B,
    xs: Seq<X>,
) -> bool
    decreases xs.len(),
{
    xs.len() == 0 || {
        &&& call_requires(f, (b, xs[0]))
        &&& {
            let c = fold_step(f, b, xs[0]);
            !child_fails(c) ==> fold_reqs(f, c.remaining()[0], xs.drop_first())
        }
    }
}

/// The item a fold over `xs` starting from `b` has still to produce: the
/// final running value, unless the chain fails first.
pub open spec fn fold_remaining<E: Effective, F: Fn(B, E::Item) -> C, B, C: Effective<Item = B>>(
    f: F,
    b: B,
    xs: Seq<<E as Effective>::Item>,
    oend: Ending<<E as Effective>::Failure>,
) -> Seq<B>
    decreases xs.len(),
{
    if xs.len() == 0 {
        match oend {
            Ending::Finishes => seq![b],
            Ending::Fails(_) => Seq::empty(),
        }
    } else {
        let c = fold_step(f, b, xs[0]);
        if child_fails(c) {
            Seq::empty()
        } else {
            fold_remaining::<E, F, B, C>(f, c.remaining()[0], xs.drop_first(), oend)
        }
    }
}

/// How a fold over `xs` starting from `b` ends: with the first failure of
/// the driver or of a child, widened into the combined channel.
pub open spec fn fold_ending<E: Effective, F: Fn(B, E::Item) -> C, B, C: Effective<Item = B>>(
    f: F,
    b: B,
    xs: Seq<<E as Effective>::Item>,
    oend: Ending<<E as Effective>::Failure>,
) -> Ending<FalliblePair<E, C>> where E::Failure: FallibleWith<<C as Effective>::Failure>
    decreases xs.len(),
{
    if xs.len() == 0 {
        match oend {
            Ending::Finishes => Ending::Finishes,
            Ending::Fails(g) => Ending::Fails(g.spec_into_fail()),
        }
    } else {
        let c = fold_step(f, b, xs[0]);
        if child_fails(c) {
            Ending::Fails(
                <E::Failure as FallibleWith<<C as Effective>::Failure>>::spec_from_fail(
                    c.ending()->0,
                ),
            )
        } else {
            fold_ending::<E, F, B, C>(f, c.remaining()[0], xs.drop_first(), oend)
        }
    }
}

/// A fold produces exactly one value or one failure.
pub proof fn lemma_fold_canonical<E: Effective, F: Fn(B, E::Item) -> C, B, C: Effective<Item = B>>(
    f: F,
    b: B,
    xs: Seq<<E as Effective>::Item>,
    oend: Ending<<E as Effective>::Failure>,
) where E::Failure: FallibleWith<<C as Effective>::Failure>
    ensures
        fold_ending::<E, F, B, C>(f, b, xs, oend) is Finishes ==> fold_remaining::<E, F, B, C>(
            f,
            b,
            xs,
            oend,
        ).len() == 1,
        fold_ending::<E, F, B, C>(f, b, xs, oend) is Fails ==> fold_remaining::<E, F, B, C>(
            f,
            b,
            xs,
            oend,
        ).len() == 0,
    decreases xs.len(),
{
    if xs.len() > 0 {
        let c = fold_step(f, b, xs[0]);
        if !child_fails(c) {
            lemma_fold_canonical::<E, F, B, C>(f, c.remaining()[0], xs.drop_first(), oend);
        }
    }
}

/// A fold whose sides cannot fail finishes.
pub proof fn lemma_fold_infallible<E: Effective, F: Fn(B, E::Item) -> C, B, C: Effective<Item = B>>(
    f: F,
    b: B,
    xs: Seq<<E as Effective>::Item>,
    oend: Ending<<E as Effective>::Failure>,
) where E::Failure: FallibleWith<<C as Effective>::Failure>
    requires
        oend is Finishes,
        !<<C as Effective>::Failure as Fallible>::fallible(),
    ensures
        fold_ending::<E, F, B, C>(f, b, xs, oend) is Finishes,
    decreases xs.len(),
{
    if xs.len() > 0 {
        let c = fold_step(f, b, xs[0]);
        lemma_fold_infallible::<E, F, B, C>(f, c.remaining()[0], xs.drop_first(), oend);
    }
}

/// Folding over a computation with no items left that finishes normally
/// produces the initial running value unchanged.
pub proof fn lemma_fold_empty<E: Effective, F: Fn(B, E::Item) -> C, B, C: Effective<Item = B>>(
    f: F,
    b: B,
    oend: Ending<<E as Effective>::Failure>,
) where E::Failure: FallibleWith<<C as Effective>::Failure>
    requires
        oend is Finishes,
    ensures
        fold_remaining::<E, F, B, C>(f, b, Seq::empty(), oend) == seq![b],
        fold_ending::<E, F, B, C>(f, b, Seq::empty(), oend) is Finishes,
{
}

/// The two modes of a fold in flight.
pub enum State<B, C> {
    /// Holding the running value, pulling the next item.
    Acc { item: Option<B> },
    /// Reducing the running value with a pulled item.
    Eff { eff: C },
}

/// Produced by the [`fold()`](crate::impls::EffectiveExt::fold) method.
pub struct Fold<E, F, B, C> {
    pub inner: E,
    pub func: F,
    pub state: State<B, C>,
}

impl<E, F, B, C> Effective for Fold<E, F, B, C> where
    E: Effective<Produces = Multiple>,
    F: Fn(B, E::Item) -> C,
    C: Effective<Item = B, Produces = Single>,
    E::Async: AsyncWith<<C as Effective>::Async>,
    E::Failure: FallibleWith<<C as Effective>::Failure>,
 {
    type Item = B;

    type Failure = FalliblePair<E, C>;

    type Produces = Single;

    type Async = AsyncPair<E, C>;

    open spec fn wf(&self) -> bool {
        &&& self.inner.wf()
        &&& fold_determined(self.func)
        &&& match self.state {
            State::Acc { item } => match item {
                Some(b) => fold_reqs(self.func, b, self.inner.remaining()),
                None => false,
            },
            State::Eff { eff } => eff.wf() && (!child_fails(eff) ==> fold_reqs(
                self.func,
                eff.remaining()[0],
                self.inner.remaining(),
            )),
        }
    }

    open spec fn remaining(&self) -> Seq<B> {
        match self.state {
            State::Acc { item } => match item {
                Some(b) => fold_remaining::<E, F, B, C>(
                    self.func,
                    b,
                    self.inner.remaining(),
                    self.inner.ending(),
                ),
                None => Seq::empty(),
            },
            State::Eff { eff } => if child_fails(eff) {
                Seq::empty()
            } else {
                fold_remaining::<E, F, B, C>(
                    self.func,
                    eff.remaining()[0],
                    self.inner.remaining(),
                    self.inner.ending(),
                )
            },
        }
    }

    open spec fn ending(&self) -> Ending<FalliblePair<E, C>> {
        match self.state {
            State::Acc { item } => match item {
                Some(b) => fold_ending::<E, F, B, C>(
                    self.func,
                    b,
                    self.inner.remaining(),
                    self.inner.ending(),
                ),
                None => Ending::Finishes,
            },
            State::Eff { eff } => if child_fails(eff) {
                Ending::Fails(
                    <E::Failure as FallibleWith<<C as Effective>::Failure>>::spec_from_fail(
                        eff.ending()->0,
                    ),
                )
            } else {
                fold_ending::<E, F, B, C>(
                    self.func,
                    eff.remaining()[0],
                    self.inner.remaining(),
                    self.inner.ending(),
                )
            },
        }
    }

    proof fn model_invariants(&self) {
        <E::Failure as FallibleWith<<C as Effective>::Failure>>::fallible_or();
        self.inner.model_invariants();
        match self.state {
            State::Acc { item } => {
                if let Some(b) = item {
                    lemma_fold_canonical::<E, F, B, C>(
                        self.func,
                        b,
                        self.inner.remaining(),
                        self.inner.ending(),
                    );
                    assert(self.remaining() == fold_remaining::<E, F, B, C>(
                        self.func,
                        b,
                        self.inner.remaining(),
                        self.inner.ending(),
                    ));
                    assert(self.ending() == fold_ending::<E, F, B, C>(
                        self.func,
                        b,
                        self.inner.remaining(),
                        self.inner.ending(),
                    ));
                    if !<FalliblePair<E, C> as Fallible>::fallible() {
                        assert(!<<E as Effective>::Failure as Fallible>::fallible());
                        assert(self.inner.ending() is Finishes);
                        lemma_fold_infallible::<E, F, B, C>(
                            self.func,
                            b,
                            self.inner.remaining(),
                            self.inner.ending(),
                        );
                    }
                }
            },
            State::Eff { eff } => {
                if !child_fails(eff) {
                    lemma_fold_canonical::<E, F, B, C>(
                        self.func,
                        eff.remaining()[0],
                        self.inner.remaining(),
                        self.inner.ending(),
                    );
                    assert(self.remaining() == fold_remaining::<E, F, B, C>(
                        self.func,
                        eff.remaining()[0],
                        self.inner.remaining(),
                        self.inner.ending(),
                    ));
                    assert(self.ending() == fold_ending::<E, F, B, C>(
                        self.func,
                        eff.remaining()[0],
                        self.inner.remaining(),
                        self.inner.ending(),
                    ));
                    if !<FalliblePair<E, C> as Fallible>::fallible() {
                        assert(!<<E as Effective>::Failure as Fallible>::fallible());
                        assert(self.inner.ending() is Finishes);
                        lemma_fold_infallible::<E, F, B, C>(
                            self.func,
                            eff.remaining()[0],
                            self.inner.remaining(),
                            self.inner.ending(),
                        );
                    }
                } else {
                    assert(<FalliblePair<E, C> as Fallible>::fallible());
                    assert(self.remaining().len() == 0);
                    assert(self.ending() is Fails);
                }
            },
        }
    }

    fn poll_effect(&mut self) -> (r: EffectResult<B, FalliblePair<E, C>, Single, AsyncPair<E, C>>) {
        proof {
            <E::Async as AsyncWith<<C as Effective>::Async>>::async_or();
            <E::Failure as FallibleWith<<C as Effective>::Failure>>::fallible_or();
        }
        loop
            invariant
                self.wf(),
                self.remaining() == old(self).remaining(),
                self.ending() == old(self).ending(),
                fold_determined(self.func),
            decreases self.inner.remaining().len(), (if self.state is Eff {
                1int
            } else {
                0int
            }),
        {
            proof {
                <E::Async as AsyncWith<<C as Effective>::Async>>::async_or();
                <E::Failure as FallibleWith<<C as Effective>::Failure>>::fallible_or();
            }
            let ghost pre = *self;
            let in_acc = matches!(self.state, State::Acc { .. });
            if in_acc {
                match self.inner.poll_effect() {
                    EffectResult::Item(x) => {
                        let b = match &mut self.state {
                            State::Acc { item } => match item.take() {
                                Some(b) => b,
                                None => vstd::pervasive::unreached(),
                            },
                            State::Eff { .. } => vstd::pervasive::unreached(),
                        };
                        let eff = (self.func)(b, x);
                        self.state = State::Eff { eff };
                        proof {
                            assert(eff == fold_step(self.func, b, x));
                            assert(self.remaining() == pre.remaining());
                            assert(self.ending() == pre.ending());
                        }
                    },
                    EffectResult::Failure(f) => {
                        return EffectResult::Failure(
                            <E::Failure as FallibleWith<<C as Effective>::Failure>>::into_fail(f),
                        );
                    },
                    EffectResult::Done(_) => {
                        let b = match &mut self.state {
                            State::Acc { item } => match item.take() {
                                Some(b) => b,
                                None => vstd::pervasive::unreached(),
                            },
                            State::Eff { .. } => vstd::pervasive::unreached(),
                        };
                        return EffectResult::Item(b);
                    },
                    EffectResult::Pending(a) => {
                        return EffectResult::Pending(
                            <E::Async as AsyncWith<<C as Effective>::Async>>::into_async(a),
                        );
                    },
                }
            } else {
                let r = match &mut self.state {
                    State::Eff { eff } => {
                        proof {
                            eff.model_invariants();
                        }
                        eff.poll_effect()
                    },
                    State::Acc { .. } => vstd::pervasive::unreached(),
                };
                match r {
                    EffectResult::Item(b2) => {
                        proof {
                            let c_pre = pre.state->Eff_eff;
                            assert(c_pre.remaining() == seq![b2]);
                            assert(c_pre.ending() is Finishes);
                            assert(!child_fails(c_pre));
                        }
                        self.state = State::Acc { item: Some(b2) };
                        proof {
                            assert(self.remaining() == pre.remaining());
                            assert(self.ending() == pre.ending());
                        }
                    },
                    EffectResult::Failure(g) => {
                        return EffectResult::Failure(
                            <E::Failure as FallibleWith<<C as Effective>::Failure>>::from_fail(g),
                        );
                    },
                    EffectResult::Done(_) => {
                        return vstd::pervasive::unreached();
                    },
                    EffectResult::Pending(a) => {
                        return EffectResult::Pending(
                            <E::Async as AsyncWith<
                                <C as Effective>::Async,
                            >>::from_async(a),
                        );
                    },
                }
            }
        }
    }
}

} // verus!
