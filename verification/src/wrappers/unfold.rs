//! Creates a multi-valued computation from a seed and a function returning a
//! single-valued computation: the dual of a fold.
//!
//! Each round applies the function to the seed and drives the returned child
//! computation to its one value: `Some` of an item and the next seed, or
//! `None` to finish. A well-formed unfolding carries a bound on the number of
//! rounds, since the model of a computation is the finite sequence of items
//! it has still to produce.

use vstd::prelude::*;

use crate::impls::fold::child_fails;
use crate::impls::map::map_value;
use crate::{EffectResult, Effective, Ending, Multiple, Single};

verus! {

/// Whether `f` is a pure step function whose children are well-formed.
pub open spec fn unfold_determined<F: Fn(T) -> C, T, C: Effective>(f: F) -> bool {
    forall|t: T, c: C| call_ensures(f, (t,), c) ==> c == map_value(f, t) && c.wf()
}

/// Whether unfolding from `t` stops within `n` rounds.
pub open spec fn unfold_halts<F: Fn(T) -> C, T, C: Effective<Produces = Single>, Item>(
    f: F,
    t: T,
    n: nat,
) -> bool where C: Effective<Item = Option<(Item, T)>>
    decreases n,
{
    {
        let c = map_value(f, t);
        &&& call_requires(f, (t,))
        &&& if child_fails(c) {
            true
        } else {
            match c.remaining()[0] {
                None => true,
                Some(p) => n > 0 && unfold_halts::<F, T, C, Item>(f, p.1, (n - 1) as nat),
            }
        }
    }
}

/// The items an unfolding from `t` has still to produce, under a halting
/// bound of `n` rounds.
pub open spec fn unfold_items<F: Fn(T) -> C, T, C: Effective<Produces = Single>, Item>(
    f: F,
    t: T,
    n: nat,
) -> Seq<Item> where C: Effective<Item = Option<(Item, T)>>
    decreases n,
{
    {
        let c = map_value(f, t);
        if child_fails(c) {
            Seq::empty()
        } else {
            match c.remaining()[0] {
                None => Seq::empty(),
                Some(p) => if n > 0 {
                    seq![p.0] + unfold_items::<F, T, C, Item>(f, p.1, (n - 1) as nat)
                } else {
                    Seq::empty()
                },
            }
        }
    }
}

/// How an unfolding from `t` ends, under a halting bound of `n` rounds.
pub open spec fn unfold_ending<F: Fn(T) -> C, T, C: Effective<Produces = Single>, Item>(
    f: F,
    t: T,
    n: nat,
) -> Ending<<C as Effective>::Failure> where C: Effective<Item = Option<(Item, T)>>
    decreases n,
{
    {
        let c = map_value(f, t);
        if child_fails(c) {
            Ending::Fails(c.ending()->0)
        } else {
            match c.remaining()[0] {
                None => Ending::Finishes,
                Some(p) => if n > 0 {
                    unfold_ending::<F, T, C, Item>(f, p.1, (n - 1) as nat)
                } else {
                    Ending::Finishes
                },
            }
        }
    }
}

/// A halting bound for unfolding from `t`, when one exists.
pub open spec fn unfold_fuel<F: Fn(T) -> C, T, C: Effective<Produces = Single>, Item>(
    f: F,
    t: T,
) -> nat where C: Effective<Item = Option<(Item, T)>> {
    choose|n: nat| unfold_halts::<F, T, C, Item>(f, t, n)
}

/// Under any two halting bounds the model of an unfolding is the same.
pub proof fn lemma_unfold_fuel_agrees<F: Fn(T) -> C, T, C: Effective<Produces = Single>, Item>(
    f: F,
    t: T,
    n1: nat,
    n2: nat,
) where C: Effective<Item = Option<(Item, T)>>
    requires
        unfold_halts::<F, T, C, Item>(f, t, n1),
        unfold_halts::<F, T, C, Item>(f, t, n2),
    ensures
        unfold_items::<F, T, C, Item>(f, t, n1) == unfold_items::<F, T, C, Item>(f, t, n2),
        unfold_ending::<F, T, C, Item>(f, t, n1) == unfold_ending::<F, T, C, Item>(f, t, n2),
    decreases n1,
{
    let c = map_value(f, t);
    if !child_fails(c) {
        match c.remaining()[0] {
            None => {
            },
            Some(p) => {
                lemma_unfold_fuel_agrees::<F, T, C, Item>(
                    f,
                    p.1,
                    (n1 - 1) as nat,
                    (n2 - 1) as nat,
                );
            },
        }
    }
}

/// An unfolding whose children cannot fail finishes.
pub proof fn lemma_unfold_infallible<F: Fn(T) -> C, T, C: Effective<Produces = Single>, Item>(
    f: F,
    t: T,
    n: nat,
) where C: Effective<Item = Option<(Item, T)>>
    requires
        !<<C as Effective>::Failure as crate::Fallible>::fallible(),
    ensures
        unfold_ending::<F, T, C, Item>(f, t, n) is Finishes,
    decreases n,
{
    let c = map_value(f, t);
    match c.remaining()[0] {
        None => {
        },
        Some(p) => {
            if n > 0 {
                lemma_unfold_infallible::<F, T, C, Item>(f, p.1, (n - 1) as nat);
            }
        },
    }
}

/// Create a multi-valued computation from a seed and a step function.
pub fn unfold<T, F, E, Item>(init: T, f: F) -> (r: Unfold<T, F, E, Item>) where
    F: Fn(T) -> E,
    E: Effective<Item = Option<(Item, T)>, Produces = Single>,

    ensures
        (unfold_determined(f) && exists|n: nat|
            unfold_halts::<F, T, E, Item>(f, init, n)) ==> r.wf(),
        r.remaining() == unfold_items::<F, T, E, Item>(
            f,
            init,
            unfold_fuel::<F, T, E, Item>(f, init),
        ),
        r.ending() == unfold_ending::<F, T, E, Item>(
            f,
            init,
            unfold_fuel::<F, T, E, Item>(f, init),
        ),
{
    Unfold { func: f, state: State::Acc { item: Some(init) }, output: core::marker::PhantomData }
}

/// The two modes of an unfolding in flight.
pub enum State<T, E> {
    /// Holding the seed for the next round.
    Acc { item: Option<T> },
    /// Driving the child computation of the current round.
    Eff { eff: E },
}

/// Produced by [`unfold`].
pub struct Unfold<T, F, E, Item> {
    pub func: F,
    pub state: State<T, E>,
    pub output: core::marker::PhantomData<Item>,
}

impl<T, F, E, Item> Effective for Unfold<T, F, E, Item> where
    F: Fn(T) -> E,
    E: Effective<Item = Option<(Item, T)>, Produces = Single>,
 {
    type Item = Item;

    type Failure = <E as Effective>::Failure;

    type Async = <E as Effective>::Async;

    type Produces = Multiple;

    open spec fn wf(&self) -> bool {
        &&& unfold_determined(self.func)
        &&& match self.state {
            State::Acc { item } => match item {
                Some(t) => exists|n: nat| unfold_halts::<F, T, E, Item>(self.func, t, n),
                None => false,
            },
            State::Eff { eff } => eff.wf() && ((!child_fails(eff) && eff.remaining()[0] is Some)
                ==> exists|n: nat|
                unfold_halts::<F, T, E, Item>(self.func, (eff.remaining()[0]->0).1, n)),
        }
    }

    open spec fn remaining(&self) -> Seq<Item> {
        match self.state {
            State::Acc { item } => match item {
                Some(t) => unfold_items::<F, T, E, Item>(
                    self.func,
                    t,
                    unfold_fuel::<F, T, E, Item>(self.func, t),
                ),
                None => Seq::empty(),
            },
            State::Eff { eff } => if child_fails(eff) {
                Seq::empty()
            } else {
                match eff.remaining()[0] {
                    None => Seq::empty(),
                    Some(p) => seq![p.0] + unfold_items::<F, T, E, Item>(
                        self.func,
                        p.1,
                        unfold_fuel::<F, T, E, Item>(self.func, p.1),
                    ),
                }
            },
        }
    }

    open spec fn ending(&self) -> Ending<<E as Effective>::Failure> {
        match self.state {
            State::Acc { item } => match item {
                Some(t) => unfold_ending::<F, T, E, Item>(
                    self.func,
                    t,
                    unfold_fuel::<F, T, E, Item>(self.func, t),
                ),
                None => Ending::Finishes,
            },
            State::Eff { eff } => if child_fails(eff) {
                Ending::Fails(eff.ending()->0)
            } else {
                match eff.remaining()[0] {
                    None => Ending::Finishes,
                    Some(p) => unfold_ending::<F, T, E, Item>(
                        self.func,
                        p.1,
                        unfold_fuel::<F, T, E, Item>(self.func, p.1),
                    ),
                }
            },
        }
    }

    proof fn model_invariants(&self) {
        assert(<Multiple as crate::Iterable>::multiple());
        if !<<E as Effective>::Failure as crate::Fallible>::fallible() {
            match self.state {
                State::Acc { item } => {
                    if let Some(t) = item {
                        lemma_unfold_infallible::<F, T, E, Item>(
                            self.func,
                            t,
                            unfold_fuel::<F, T, E, Item>(self.func, t),
                        );
                    }
                },
                State::Eff { eff } => {
                    assert(!child_fails(eff));
                    if let Some(p) = eff.remaining()[0] {
                        lemma_unfold_infallible::<F, T, E, Item>(
                            self.func,
                            p.1,
                            unfold_fuel::<F, T, E, Item>(self.func, p.1),
                        );
                    }
                },
            }
            assert(self.ending() is Finishes);
        }
    }

    fn poll_effect(&mut self) -> (r: EffectResult<
        Item,
        <E as Effective>::Failure,
        Multiple,
        <E as Effective>::Async,
    >) {
        loop
            invariant
                self.wf(),
                self.remaining() == old(self).remaining(),
                self.ending() == old(self).ending(),
            decreases (if self.state is Acc {
                1int
            } else {
                0int
            }),
        {
            let ghost pre = *self;
            let in_acc = matches!(self.state, State::Acc { .. });
            if in_acc {
                let t = match &mut self.state {
                    State::Acc { item } => match item.take() {
                        Some(t) => t,
                        None => vstd::pervasive::unreached(),
                    },
                    State::Eff { .. } => vstd::pervasive::unreached(),
                };
                let ghost t_spec = t;
                proof {
                    let fuel0 = unfold_fuel::<F, T, E, Item>(self.func, t_spec);
                    assert(unfold_halts::<F, T, E, Item>(self.func, t_spec, fuel0));
                }
                let eff = (self.func)(t);
                self.state = State::Eff { eff };
                proof {
                    assert(eff == map_value(self.func, t_spec));
                    let fuel = unfold_fuel::<F, T, E, Item>(self.func, t_spec);
                    assert(unfold_halts::<F, T, E, Item>(self.func, t_spec, fuel));
                    if !child_fails(eff) {
                        match eff.remaining()[0] {
                            None => {
                            },
                            Some(p) => {
                                assert(fuel > 0);
                                assert(unfold_halts::<F, T, E, Item>(
                                    self.func,
                                    p.1,
                                    (fuel - 1) as nat,
                                ));
                                let fuel2 = unfold_fuel::<F, T, E, Item>(self.func, p.1);
                                assert(unfold_halts::<F, T, E, Item>(self.func, p.1, fuel2));
                                lemma_unfold_fuel_agrees::<F, T, E, Item>(
                                    self.func,
                                    p.1,
                                    (fuel - 1) as nat,
                                    fuel2,
                                );
                            },
                        }
                    }
                    assert(self.remaining() == pre.remaining());
                    assert(self.ending() == pre.ending());
                }
            } else {
                let r = match &mut self.state {
                    State::Eff { eff } => {
                        proof {
                            eff.model_invariants();
                        }
                        eff.poll_effect()
                    },
                    State::Acc { .. } => vstd::pervasive::unreached(),
                };
                match r {
                    EffectResult::Item(opt) => {
                        proof {
                            let c_pre = pre.state->Eff_eff;
                            assert(c_pre.remaining() == seq![opt]);
                            assert(c_pre.ending() is Finishes);
                            assert(!child_fails(c_pre));
                        }
                        match opt {
                            Some(pair) => {
                                let (i, t2) = pair;
                                self.state = State::Acc { item: Some(t2) };
                                proof {
                                    assert(pre.remaining().len() > 0);
                                    assert(pre.remaining()[0] == i);
                                    assert(self.remaining() =~= pre.remaining().drop_first());
                                    assert(self.ending() == pre.ending());
                                }
                                return EffectResult::Item(i);
                            },
                            None => {
                                return EffectResult::Done(Multiple);
                            },
                        }
                    },
                    EffectResult::Failure(g) => {
                        return EffectResult::Failure(g);
                    },
                    EffectResult::Done(_) => {
                        return vstd::pervasive::unreached();
                    },
                    EffectResult::Pending(a) => {
                        return EffectResult::Pending(a);
                    },
                }
            }
        }
    }
}

} // verus!
