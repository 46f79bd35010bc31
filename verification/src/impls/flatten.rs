//! The combinator that merges a computation of computations into one
//! computation.
//!
//! The outer computation produces inner computations; flattening drains each
//! inner computation in turn, in production order. Per axis the combined
//! capability is the union of the outer's and the inner's, and a failure on
//! either side widens into the combined failure channel and ends the whole
//! computation: items of inner computations after a failing one are never
//! produced.

use vstd::prelude::*;

use crate::utils::{from_async, from_fail, AsyncPair, AsyncWith, FalliblePair, FallibleWith,
    IterablePair, IterableWith};
use crate::{EffectResult, Effective, Ending, Fallible, Iterable, SealedMarker};

verus! {

/// The items a sequence of inner computations has still to produce: each
/// computation's items in order, cut short after the first failing one.
pub open spec fn flat_items<C: Effective>(cs: Seq<C>) -> Seq<C::Item>
    decreases cs.len(),
{
    if cs.len() == 0 {
        Seq::empty()
    } else {
        cs[0].remaining() + (if cs[0].ending() is Fails {
            Seq::empty()
        } else {
            flat_items(cs.drop_first())
        })
    }
}

/// How a flattened sequence of inner computations ends: with the first inner
/// failure, widened, else with the outer's own ending, widened.
pub open spec fn flat_ending<E: Effective>(
    cs: Seq<<E as Effective>::Item>,
    oend: Ending<<E as Effective>::Failure>,
) -> Ending<FalliblePair<E, E::Item>> where
    E::Item: Effective,
    E::Failure: FallibleWith<<E::Item as Effective>::Failure>,

    decreases cs.len(),
{
    if cs.len() == 0 {
        match oend {
            Ending::Finishes => Ending::Finishes,
            Ending::Fails(f) => Ending::Fails(f.spec_into_fail()),
        }
    } else {
        match cs[0].ending() {
            Ending::Fails(g) => Ending::Fails(
                <E::Failure as FallibleWith<<E::Item as Effective>::Failure>>::spec_from_fail(g),
            ),
            Ending::Finishes => flat_ending::<E>(cs.drop_first(), oend),
        }
    }
}

/// Produced by the [`flatten()`](crate::impls::EffectiveExt::flatten) method.
pub struct Flatten<E: Effective> {
    pub inner: Option<E>,
    pub flatten: Option<E::Item>,
}

impl<E: Effective> Flatten<E> where
    E::Item: Effective,
    E::Produces: IterableWith<<E::Item as Effective>::Produces>,
    E::Async: AsyncWith<<E::Item as Effective>::Async>,
    E::Failure: FallibleWith<<E::Item as Effective>::Failure>,
 {
    /// The items contributed by the computations the outer side has still to
    /// produce.
    pub open spec fn outer_items(&self) -> Seq<<E::Item as Effective>::Item> {
        match self.inner {
            Some(e) => flat_items(e.remaining()),
            None => Seq::empty(),
        }
    }

    /// How the outer side's contribution ends.
    pub open spec fn outer_end(&self) -> Ending<FalliblePair<E, E::Item>> {
        match self.inner {
            Some(e) => flat_ending::<E>(e.remaining(), e.ending()),
            None => Ending::Finishes,
        }
    }

    /// Poll progress on the outer side: each poll round either leaves the
    /// outer computation with fewer items or retires it.
    pub open spec fn outer_measure(&self) -> int {
        match self.inner {
            Some(e) => e.remaining().len() as int + 1,
            None => 0,
        }
    }

    /// Poll progress on the flatten slot.
    pub open spec fn slot_measure(&self) -> int {
        if self.flatten is Some {
            1
        } else {
            0
        }
    }
}

impl<E: Effective> Effective for Flatten<E> where
    E::Item: Effective,
    E::Produces: IterableWith<<E::Item as Effective>::Produces>,
    E::Async: AsyncWith<<E::Item as Effective>::Async>,
    E::Failure: FallibleWith<<E::Item as Effective>::Failure>,
 {
    type Item = <E::Item as Effective>::Item;

    type Failure = FalliblePair<E, E::Item>;

    type Produces = IterablePair<E, E::Item>;

    type Async = AsyncPair<E, E::Item>;

    open spec fn wf(&self) -> bool {
        &&& match self.inner {
            Some(e) => e.wf() && forall|i: int|
                0 <= i < e.remaining().len() ==> (#[trigger] e.remaining()[i]).wf(),
            None => true,
        }
        &&& match self.flatten {
            Some(c) => c.wf(),
            None => true,
        }
        &&& !<IterablePair<E, E::Item> as Iterable>::multiple() ==> (self.inner is Some
            || self.flatten is Some)
        &&& (!<E::Produces as Iterable>::multiple() && self.flatten is Some) ==> self.inner
            is None
    }

    open spec fn remaining(&self) -> Seq<<E::Item as Effective>::Item> {
        match self.flatten {
            Some(c) => c.remaining() + (if c.ending() is Fails {
                Seq::empty()
            } else {
                self.outer_items()
            }),
            None => self.outer_items(),
        }
    }

    open spec fn ending(&self) -> Ending<FalliblePair<E, E::Item>> {
        match self.flatten {
            Some(c) => match c.ending() {
                Ending::Fails(g) => Ending::Fails(
                    <E::Failure as FallibleWith<
                        <E::Item as Effective>::Failure,
                    >>::spec_from_fail(g),
                ),
                Ending::Finishes => self.outer_end(),
            },
            None => self.outer_end(),
        }
    }

    proof fn model_invariants(&self) {
        <E::Produces as IterableWith<<E::Item as Effective>::Produces>>::multiple_or();
        <E::Failure as FallibleWith<<E::Item as Effective>::Failure>>::fallible_or();
        if let Some(c) = self.flatten {
            c.model_invariants();
        }
        if let Some(e) = self.inner {
            e.model_invariants();
        }
        if !<FalliblePair<E, E::Item> as Fallible>::fallible() {
            if let Some(e) = self.inner {
                lemma_flat_ending_infallible::<E>(e.remaining(), e.ending());
            }
            assert(self.ending() is Finishes);
        }
        if !<IterablePair<E, E::Item> as Iterable>::multiple() {
            match self.flatten {
                Some(c) => {
                    assert(self.inner is None);
                    assert(self.remaining() =~= c.remaining());
                },
                None => {
                    match self.inner {
                        Some(e) => {
                            if e.remaining().len() > 0 {
                                let c0 = e.remaining()[0];
                                assert(c0.wf());
                                c0.model_invariants();
                                assert(e.remaining().len() == 1);
                                assert(e.remaining().drop_first().len() == 0);
                                assert(flat_items(e.remaining().drop_first())
                                    =~= Seq::<<E::Item as Effective>::Item>::empty());
                                assert(self.remaining() =~= c0.remaining());
                                if c0.ending() is Finishes {
                                    assert(self.ending() == flat_ending::<E>(
                                        e.remaining().drop_first(),
                                        e.ending(),
                                    ));
                                    assert(self.ending() is Finishes);
                                }
                            } else {
                                assert(self.remaining() =~= Seq::<
                                    <E::Item as Effective>::Item,
                                >::empty());
                            }
                        },
                        None => {
                            assert(false);
                        },
                    }
                },
            }
        }
    }

    fn poll_effect(&mut self) -> (r: EffectResult<
        <E::Item as Effective>::Item,
        FalliblePair<E, E::Item>,
        IterablePair<E, E::Item>,
        AsyncPair<E, E::Item>,
    >) {
        proof {
            <E::Produces as IterableWith<<E::Item as Effective>::Produces>>::multiple_or();
            <E::Async as AsyncWith<<E::Item as Effective>::Async>>::async_or();
            <E::Failure as FallibleWith<<E::Item as Effective>::Failure>>::fallible_or();
        }
        loop
            invariant
                self.wf(),
                self.remaining() == old(self).remaining(),
                self.ending() == old(self).ending(),
            decreases self.outer_measure(), self.slot_measure(),
        {
            proof {
                <E::Produces as IterableWith<<E::Item as Effective>::Produces>>::multiple_or();
                <E::Async as AsyncWith<<E::Item as Effective>::Async>>::async_or();
                <E::Failure as FallibleWith<<E::Item as Effective>::Failure>>::fallible_or();
            }
            let ghost pre = *self;
            if self.flatten.is_some() {
                let r = match &mut self.flatten {
                    Some(c) => {
                        proof {
                            c.model_invariants();
                        }
                        c.poll_effect()
                    },
                    None => vstd::pervasive::unreached(),
                };
                match r {
                    EffectResult::Item(x) => {
                        if !<<E::Item as Effective>::Produces as Iterable>::multiple_flag() {
                            self.flatten = None;
                            proof {
                                assert(self.remaining() =~= pre.remaining().drop_first());
                            }
                        } else {
                            proof {
                                let c_pre = pre.flatten->0;
                                let c_now = self.flatten->0;
                                assert(c_now.remaining() == c_pre.remaining().drop_first());
                                assert(self.remaining() =~= pre.remaining().drop_first());
                            }
                        }
                        return EffectResult::Item(x);
                    },
                    EffectResult::Failure(g) => {
                        proof {
                            assert(pre.remaining() =~= Seq::empty());
                        }
                        return EffectResult::Failure(from_fail::<E, E::Item>(g));
                    },
                    EffectResult::Done(_) => {
                        self.flatten = None;
                        proof {
                            assert(self.remaining() =~= pre.remaining());
                        }
                    },
                    EffectResult::Pending(a) => {
                        return EffectResult::Pending(from_async::<E, E::Item>(a));
                    },
                }
            } else if self.inner.is_some() {
                let r = match &mut self.inner {
                    Some(e) => {
                        proof {
                            e.model_invariants();
                        }
                        e.poll_effect()
                    },
                    None => vstd::pervasive::unreached(),
                };
                match r {
                    EffectResult::Item(c) => {
                        proof {
                            assert(pre.inner->0.remaining().len() > 0);
                            assert(c == pre.inner->0.remaining()[0]);
                            assert(c.wf());
                        }
                        if !<E::Produces as Iterable>::multiple_flag() {
                            self.inner = None;
                        }
                        proof {
                            if <E::Produces as Iterable>::multiple() {
                                let e_now = self.inner->0;
                                assert(e_now.remaining() == pre.inner->0.remaining().drop_first());
                                assert forall|i: int|
                                    0 <= i < e_now.remaining().len() implies (
                                #[trigger] e_now.remaining()[i]).wf() by {
                                    assert(e_now.remaining()[i] == pre.inner->0.remaining()[i
                                        + 1]);
                                }
                            }
                        }
                        self.flatten = Some(c);
                        proof {
                            let e_pre = pre.inner->0;
                            assert(pre.remaining() == flat_items(e_pre.remaining()));
                            assert(pre.ending() == flat_ending::<E>(
                                e_pre.remaining(),
                                e_pre.ending(),
                            ));
                            assert(flat_items(e_pre.remaining()) == c.remaining() + (if c.ending()
                                is Fails {
                                Seq::<<E::Item as Effective>::Item>::empty()
                            } else {
                                flat_items(e_pre.remaining().drop_first())
                            }));
                            assert(flat_ending::<E>(e_pre.remaining(), e_pre.ending()) == (
                            match c.ending() {
                                Ending::Fails(g) => Ending::Fails(
                                    <E::Failure as FallibleWith<
                                        <E::Item as Effective>::Failure,
                                    >>::spec_from_fail(g),
                                ),
                                Ending::Finishes => flat_ending::<E>(
                                    e_pre.remaining().drop_first(),
                                    e_pre.ending(),
                                ),
                            }));
                            if !<E::Produces as Iterable>::multiple() {
                                assert(e_pre.remaining().len() == 1);
                                assert(e_pre.remaining().drop_first().len() == 0);
                                assert(flat_items(e_pre.remaining().drop_first())
                                    =~= Seq::<<E::Item as Effective>::Item>::empty());
                                assert(e_pre.ending() is Finishes);
                                assert(flat_ending::<E>(
                                    e_pre.remaining().drop_first(),
                                    e_pre.ending(),
                                ) is Finishes);
                                assert(self.outer_end() is Finishes);
                            } else {
                                let e_now = self.inner->0;
                                assert(self.outer_end() == flat_ending::<E>(
                                    e_now.remaining(),
                                    e_now.ending(),
                                ));
                                assert(e_now.remaining() == e_pre.remaining().drop_first());
                                assert(e_now.ending() == e_pre.ending());
                            }
                            assert(self.remaining() =~= pre.remaining());
                            assert(self.ending() == pre.ending());
                        }
                    },
                    EffectResult::Failure(f) => {
                        proof {
                            assert(pre.remaining() =~= Seq::empty());
                        }
                        return EffectResult::Failure(
                            <E::Failure as FallibleWith<
                                <E::Item as Effective>::Failure,
                            >>::into_fail(f),
                        );
                    },
                    EffectResult::Done(_) => {
                        self.inner = None;
                        proof {
                            assert(self.remaining() =~= pre.remaining());
                        }
                    },
                    EffectResult::Pending(a) => {
                        return EffectResult::Pending(
                            <E::Async as AsyncWith<<E::Item as Effective>::Async>>::into_async(a),
                        );
                    },
                }
            } else {
                return EffectResult::Done(
                    <IterablePair<E, E::Item> as SealedMarker>::new(),
                );
            }
        }
    }

    fn size_hint(&self) -> (r: (usize, Option<usize>)) {
        proof {
            <E::Produces as IterableWith<<E::Item as Effective>::Produces>>::multiple_or();
            <E::Failure as FallibleWith<<E::Item as Effective>::Failure>>::fallible_or();
            if let Some(c) = &self.flatten {
                c.model_invariants();
            }
            if let Some(e) = &self.inner {
                e.model_invariants();
            }
        }
        if <E::Produces as Iterable>::multiple_flag() && <<E::Item as Effective>::Produces as Iterable>::multiple_flag() {
            (0, None)
        } else if <E::Produces as Iterable>::multiple_flag() {
            let extra: usize = if self.flatten.is_some() {
                1
            } else {
                0
            };
            let (lo, hi) = match &self.inner {
                Some(e) => e.size_hint(),
                None => (0, Some(0)),
            };
            proof {
                if let Some(e) = &self.inner {
                    lemma_flat_items_wf_len::<E::Item>(e.remaining());
                    if !<FalliblePair<E, E::Item> as Fallible>::fallible() {
                        lemma_flat_items_single_exact::<E::Item>(e.remaining());
                    }
                }
            }
            let lower = match lo.checked_add(extra) {
                Some(v) => v,
                None => lo,
            };
            let upper = match hi {
                Some(h) => h.checked_add(extra),
                None => None,
            };
            (lower, upper)
        } else if self.flatten.is_some() {
            let r = match &self.flatten {
                Some(c) => c.size_hint(),
                None => vstd::pervasive::unreached(),
            };
            proof {
                assert(self.remaining() =~= self.flatten->0.remaining());
            }
            r
        } else if self.inner.is_some() {
            (0, None)
        } else {
            proof {
                assert(self.remaining() =~= Seq::<<E::Item as Effective>::Item>::empty());
            }
            (0, Some(0))
        }
    }
}

/// Over well-formed computations, a flattened sequence whose sides cannot
/// fail ends by finishing.
pub proof fn lemma_flat_ending_infallible<E: Effective>(
    cs: Seq<<E as Effective>::Item>,
    oend: Ending<<E as Effective>::Failure>,
) where E::Item: Effective, E::Failure: FallibleWith<<E::Item as Effective>::Failure>
    requires
        forall|i: int| 0 <= i < cs.len() ==> (#[trigger] cs[i]).wf(),
        !<<E as Effective>::Failure as Fallible>::fallible(),
        !<<E::Item as Effective>::Failure as Fallible>::fallible(),
        oend is Finishes,
    ensures
        flat_ending::<E>(cs, oend) is Finishes,
    decreases cs.len(),
{
    if cs.len() > 0 {
        cs[0].model_invariants();
        assert forall|i: int| 0 <= i < cs.drop_first().len() implies (#[trigger] cs.drop_first()[i]).wf() by {
            assert(cs.drop_first()[i] == cs[i + 1]);
        }
        lemma_flat_ending_infallible::<E>(cs.drop_first(), oend);
    }
}

/// Flattening a multi-valued computation of single-item computations yields
/// the same sequence as mapping each computation to its one extracted item.
pub proof fn lemma_flatten_extracts<C: Effective>(cs: Seq<C>)
    requires
        forall|i: int| 0 <= i < cs.len() ==> (#[trigger] cs[i]).wf(),
        !<<C as Effective>::Produces as Iterable>::multiple(),
        !<<C as Effective>::Failure as Fallible>::fallible(),
    ensures
        flat_items(cs) == cs.map_values(|c: C| c.remaining()[0]),
    decreases cs.len(),
{
    if cs.len() > 0 {
        cs[0].model_invariants();
        assert forall|i: int| 0 <= i < cs.drop_first().len() implies (#[trigger] cs.drop_first()[i]).wf() by {
            assert(cs.drop_first()[i] == cs[i + 1]);
        }
        lemma_flatten_extracts::<C>(cs.drop_first());
        assert(cs[0].remaining() =~= seq![cs[0].remaining()[0]]);
        assert forall|i: int|
            0 <= i < cs.len() implies flat_items(cs)[i] == cs.map_values(
            |c: C| c.remaining()[0],
        )[i] by {
            if i > 0 {
                assert(cs.drop_first()[i - 1] == cs[i]);
                assert(flat_items(cs)[i] == flat_items(cs.drop_first())[i - 1]);
            }
        }
        assert(flat_items(cs) =~= cs.map_values(|c: C| c.remaining()[0]));
    } else {
        assert(flat_items(cs) =~= cs.map_values(|c: C| c.remaining()[0]));
    }
}

/// A flattened sequence fails with the first failing inner computation, and
/// produces no item of any inner computation after that one.
pub proof fn lemma_flatten_short_circuit<E: Effective>(
    cs: Seq<<E as Effective>::Item>,
    oend: Ending<<E as Effective>::Failure>,
    k: int,
) where E::Item: Effective, E::Failure: FallibleWith<<E::Item as Effective>::Failure>
    requires
        0 <= k < cs.len(),
        cs[k].ending() is Fails,
        forall|j: int| 0 <= j < k ==> (#[trigger] cs[j]).ending() is Finishes,
    ensures
        flat_ending::<E>(cs, oend) == Ending::Fails(
            <E::Failure as FallibleWith<<E::Item as Effective>::Failure>>::spec_from_fail(
                cs[k].ending()->0,
            ),
        ),
        flat_items(cs) == flat_items(cs.take(k + 1)),
    decreases k,
{
    if k == 0 {
        assert(cs.take(1)[0] == cs[0]);
        assert(flat_items(cs.take(1)) == cs.take(1)[0].remaining());
        assert(flat_items(cs) =~= flat_items(cs.take(k + 1)));
    } else {
        assert forall|j: int| 0 <= j < k - 1 implies (#[trigger] cs.drop_first()[j]).ending()
            is Finishes by {
            assert(cs.drop_first()[j] == cs[j + 1]);
        }
        assert(cs.drop_first()[k - 1] == cs[k]);
        lemma_flatten_short_circuit::<E>(cs.drop_first(), oend, k - 1);
        assert(cs.take(k + 1)[0] == cs[0]);
        assert(cs.take(k + 1).drop_first() =~= cs.drop_first().take(k));
        assert(flat_items(cs) =~= flat_items(cs.take(k + 1)));
    }
}

/// Flattening well-formed single-valued computations that cannot fail yields
/// exactly one item per computation.
pub proof fn lemma_flat_items_single_exact<C: Effective>(cs: Seq<C>)
    requires
        forall|i: int| 0 <= i < cs.len() ==> (#[trigger] cs[i]).wf(),
        !<<C as Effective>::Produces as Iterable>::multiple(),
        !<<C as Effective>::Failure as Fallible>::fallible(),
    ensures
        flat_items(cs).len() == cs.len(),
    decreases cs.len(),
{
    if cs.len() > 0 {
        cs[0].model_invariants();
        assert forall|i: int| 0 <= i < cs.drop_first().len() implies (#[trigger] cs.drop_first()[i]).wf() by {
            assert(cs.drop_first()[i] == cs[i + 1]);
        }
        lemma_flat_items_single_exact::<C>(cs.drop_first());
    }
}

/// Helper: flattening a sequence of well-formed single-valued computations
/// bounds the item count by the computation count.
pub proof fn lemma_flat_items_wf_len<C: Effective>(cs: Seq<C>)
    requires
        forall|i: int| 0 <= i < cs.len() ==> (#[trigger] cs[i]).wf(),
        !<<C as Effective>::Produces as Iterable>::multiple(),
    ensures
        flat_items(cs).len() <= cs.len(),
    decreases cs.len(),
{
    if cs.len() > 0 {
        cs[0].model_invariants();
        assert forall|i: int| 0 <= i < cs.drop_first().len() implies (#[trigger] cs.drop_first()[i]).wf() by {
            assert(cs.drop_first()[i] == cs[i + 1]);
        }
        lemma_flat_items_wf_len::<C>(cs.drop_first());
    }
}

} // verus!
