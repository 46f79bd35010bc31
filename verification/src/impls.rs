//! The combinator library over [`Effective`](crate::Effective).

use vstd::prelude::*;

pub mod block;
pub mod collect;
pub mod flatten;
pub mod fold;
pub mod for_each;
pub mod map;
pub mod unwrap;

use crate::utils::{AsyncWith, FallibleWith, IterableWith};
use crate::{Asynchrony, Blocking, EffectResult, Effective, Ending, Failure, Fallible, Iterable,
    Multiple, SimpleTry, Single};
use block::{Block, Executor};
use collect::Collect;
use flatten::{flat_ending, flat_items, Flatten};
use fold::Fold;
use for_each::ForEach;
use map::{map_determined, map_value, Mapped};
use unwrap::Unwrap;

verus! {

/// A computation whose items are transformed and then flattened.
pub type FlatMap<E, F, R> = Flatten<Mapped<E, F, R>>;

/// Common adaptors to [`Effective`].
pub trait EffectiveExt: Effective {
    /// Transform the items with a pure function; every other capability and
    /// the failure channel stay as they are, and the model is the inner model
    /// mapped elementwise.
    fn map<R, F: Fn(Self::Item) -> R>(self, f: F) -> (r: Mapped<Self, F, R>)
        ensures
            r == (Mapped { inner: self, map: f, output: core::marker::PhantomData::<R> }),
            self.wf() && map_determined(f, self.remaining()) ==> r.wf(),
            r.remaining() == self.remaining().map_values(|x: Self::Item| map_value(f, x)),
            r.ending() == self.ending(),
    {
        let ghost pre = self;
        let r = Mapped { inner: self, map: f, output: core::marker::PhantomData };
        proof {
            assert(r.remaining() == pre.remaining().map_values(|x: Self::Item| map_value(f, x)));
        }
        r
    }

    /// If each item is itself a computation, flatten those items into one
    /// computation; the capability set is the per-axis union.
    fn flatten(self) -> (r: Flatten<Self>) where
        Self::Item: Effective,
        Self::Produces: IterableWith<<Self::Item as Effective>::Produces>,
        Self::Async: AsyncWith<<Self::Item as Effective>::Async>,
        Self::Failure: FallibleWith<<Self::Item as Effective>::Failure>,

        ensures
            r == (Flatten::<Self> { inner: Some(self), flatten: None::<Self::Item> }),
            (self.wf() && forall|i: int|
                0 <= i < self.remaining().len() ==> (#[trigger] self.remaining()[i]).wf())
                ==> r.wf(),
            r.remaining() == flat_items(self.remaining()),
            r.ending() == flat_ending::<Self>(self.remaining(), self.ending()),
    {
        let ghost pre = self;
        let r = Flatten { inner: Some(self), flatten: None };
        proof {
            assert(r.remaining() == flat_items(pre.remaining()));
            assert(r.ending() == flat_ending::<Self>(pre.remaining(), pre.ending()));
        }
        r
    }

    /// Transform each item into a computation and flatten the results.
    fn flat_map<R: Effective, F: Fn(Self::Item) -> R>(self, f: F) -> (r: FlatMap<Self, F, R>) where
        Self::Produces: IterableWith<<R as Effective>::Produces>,
        Self::Async: AsyncWith<<R as Effective>::Async>,
        Self::Failure: FallibleWith<<R as Effective>::Failure>,

        ensures
            r == (Flatten::<Mapped<Self, F, R>> {
                inner: Some(Mapped { inner: self, map: f, output: core::marker::PhantomData }),
                flatten: None::<R>,
            }),
    {
        Flatten {
            inner: Some(Mapped { inner: self, map: f, output: core::marker::PhantomData }),
            flatten: None,
        }
    }

    /// Collect the items into a vector: subtracts the multiplicity
    /// capability.
    fn collect(self) -> (r: Collect<Self>) where Self: Effective<Produces = Multiple>
        ensures
            r.inner == self,
            r.into@ == Seq::<Self::Item>::empty(),
            self.wf() ==> r.wf(),
            r.collected() == self.remaining(),
            r.ending() == self.ending(),
    {
        let ghost pre = self;
        let r = Collect { inner: self, into: Vec::new() };
        proof {
            assert(r.collected() =~= pre.remaining());
        }
        r
    }

    /// Hand the computation to an injected driver: subtracts the suspension
    /// capability.
    fn block_on<R: Executor>(self, executor: R) -> (r: Block<Self, R>) where
        Self: Effective<Async = crate::Async>,

        ensures
            r.inner == self,
            r.executor == executor,
            self.wf() ==> r.wf(),
            r.remaining() == self.remaining(),
            r.ending() == self.ending(),
    {
        Block { inner: self, executor }
    }

    /// Statically discharge the failure capability of a computation whose
    /// model never fails: no observable output changes, only the capability
    /// type.
    fn unwrap(self) -> (r: Unwrap<Self>)
        ensures
            r.inner == self,
            self.wf() && self.ending() is Finishes ==> r.wf(),
            r.remaining() == self.remaining(),
            r.ending() is Finishes,
    {
        Unwrap { inner: self }
    }

    /// Reduce the items with a running value and a reducer returning a
    /// single-valued computation: subtracts the multiplicity capability.
    ///
    /// Folding over a computation with no items left produces the initial
    /// running value unchanged.
    fn fold<F, B, C>(self, init: B, func: F) -> (r: Fold<Self, F, B, C>) where
        Self: Effective<Produces = Multiple>,
        F: Fn(B, Self::Item) -> C,
        C: Effective<Item = B, Produces = Single>,
        Self::Async: AsyncWith<<C as Effective>::Async>,
        Self::Failure: FallibleWith<<C as Effective>::Failure>,

        ensures
            r == (Fold::<Self, F, B, C> {
                inner: self,
                func,
                state: fold::State::Acc { item: Some(init) },
            }),
    {
        Fold { inner: self, func, state: fold::State::Acc { item: Some(init) } }
    }

    /// Run a child computation for every item, discarding its unit values:
    /// subtracts the multiplicity capability.
    fn for_each<F, C>(self, func: F) -> (r: ForEach<Self, F, C>) where
        Self: Effective<Produces = Multiple>,
        F: Fn(Self::Item) -> C,
        C: Effective<Item = ()>,
        Self::Async: AsyncWith<<C as Effective>::Async>,
        Self::Failure: FallibleWith<<C as Effective>::Failure>,

        ensures
            r == (ForEach::<Self, F, C> { inner: self, func, state: for_each::State::Acc }),
    {
        ForEach { inner: self, func, state: for_each::State::Acc }
    }

    /// Extract the value once every capability is off: the one `poll` this
    /// performs is guaranteed to produce the single modelled item.
    fn get(self) -> (r: Self::Item) where
        Self: Effective<
            Produces = Single,
            Failure = core::convert::Infallible,
            Async = Blocking,
        >,

        requires
            self.wf(),
        ensures
            self.remaining().len() == 1,
            r == self.remaining()[0],
    {
        proof {
            self.model_invariants();
            assert(!<Single as Iterable>::multiple());
            assert(!<Blocking as Asynchrony>::is_async());
            assert(!<core::convert::Infallible as Fallible>::fallible());
        }
        let mut this = self;
        match this.poll_effect() {
            EffectResult::Item(x) => x,
            _ => vstd::pervasive::unreached(),
        }
    }

    /// The capability flags of a single-valued blocking computation, spelled
    /// out for the terminal extractors.
    proof fn single_blocking_facts()
        ensures
            !<Single as Iterable>::multiple(),
            !<Blocking as Asynchrony>::is_async(),
    {
    }

    /// Extract the value or the failure of a single-valued, non-suspending
    /// computation.
    fn try_get<R, Fx>(self) -> (r: R) where
        Self: Effective<Produces = Single, Async = Blocking, Failure = Failure<Fx>>,
        R: SimpleTry<Continue = Self::Item, Break = Fx>,

        requires
            self.wf(),
        ensures
            self.ending() is Finishes ==> r.is_continue() && r.continue_of()
                == self.remaining()[0],
            self.ending() matches Ending::Fails(g) ==> !r.is_continue() && r.break_of() == g.0,
    {
        proof {
            self.model_invariants();
            Self::single_blocking_facts();
        }
        let mut this = self;
        match this.poll_effect() {
            EffectResult::Item(x) => R::from_continue(x),
            EffectResult::Failure(f) => {
                let ghost f_spec = f;
                let b = f.inner();
                proof {
                    assert(b == f_spec.0);
                }
                R::from_break(b)
            },
            _ => vstd::pervasive::unreached(),
        }
    }
}

impl<E: Effective> EffectiveExt for E {

}

} // verus!
