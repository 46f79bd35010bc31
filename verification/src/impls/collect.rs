//! The combinator that subtracts the multiplicity capability by draining
//! every item into an order-preserving container.
//!
//! The container is a host vector. A vector's identity is not a
//! specification-level value, so `Collect` exposes the poll protocol through
//! an inherent method whose contract speaks of the vector's view: the single
//! produced value holds exactly the drained items, in production order.

use vstd::prelude::*;

use crate::{Asynchrony, EffectResult, Effective, Ending, Fallible, Multiple, Single};

verus! {

/// Produced by the [`collect()`](crate::impls::EffectiveExt::collect) method.
pub struct Collect<E: Effective> {
    pub inner: E,
    pub into: Vec<E::Item>,
}

impl<E: Effective<Produces = Multiple>> Collect<E> {
    /// Only a well-formed collection may be polled.
    pub open spec fn wf(&self) -> bool {
        self.inner.wf()
    }

    /// The items the produced container will hold: everything drained so far,
    /// then everything the inner computation has still to produce.
    pub open spec fn collected(&self) -> Seq<E::Item> {
        self.into@ + self.inner.remaining()
    }

    /// How the inner computation ends; on a failure the whole collection
    /// fails and the partially built container is discarded.
    pub open spec fn ending(&self) -> Ending<E::Failure> {
        self.inner.ending()
    }

    /// Advance the collection: the same protocol as
    /// [`Effective::poll_effect`], stated over the container's view.
    ///
    /// The produced container holds exactly the items the inner computation
    /// produces, in production order — collection is order-preserving and
    /// exhaustive. A suspension preserves the accumulated state, so a live
    /// collection resumes exactly where it left off.
    pub fn poll_effect(&mut self) -> (r: EffectResult<Vec<E::Item>, E::Failure, Single, E::Async>)
        requires
            old(self).wf(),
        ensures
            r is Pending ==> <E::Async as Asynchrony>::is_async(),
            match r {
                EffectResult::Item(v) => v@ == old(self).collected() && old(self).ending()
                    is Finishes,
                EffectResult::Failure(f) => old(self).ending() == Ending::Fails(f),
                EffectResult::Done(_) => false,
                EffectResult::Pending(_) => {
                    &&& final(self).wf()
                    &&& final(self).collected() == old(self).collected()
                    &&& final(self).ending() == old(self).ending()
                },
            },
    {
        if !<E::Async as Asynchrony>::async_flag() && !<E::Failure as Fallible>::fallible_flag() {
            let v = self.drain_sync();
            return EffectResult::Item(v);
        }
        loop
            invariant
                self.wf(),
                self.collected() == old(self).collected(),
                self.ending() == old(self).ending(),
            decreases self.inner.remaining().len(),
        {
            let ghost pre_collected = self.collected();
            match self.inner.poll_effect() {
                EffectResult::Item(x) => {
                    self.into.push(x);
                    proof {
                        assert(self.collected() =~= pre_collected);
                    }
                },
                EffectResult::Failure(f) => {
                    return EffectResult::Failure(f);
                },
                EffectResult::Done(_) => {
                    let mut v = Vec::new();
                    core::mem::swap(&mut self.into, &mut v);
                    proof {
                        assert(v@ =~= pre_collected);
                    }
                    return EffectResult::Item(v);
                },
                EffectResult::Pending(a) => {
                    return EffectResult::Pending(a);
                },
            }
        }
    }

    /// The synchronous fast path: with suspension and failure both off, drain
    /// the items as a plain sequence. It produces exactly the output of the
    /// general loop.
    fn drain_sync(&mut self) -> (v: Vec<E::Item>)
        requires
            old(self).wf(),
            !<E::Async as Asynchrony>::is_async(),
            !<E::Failure as Fallible>::fallible(),
        ensures
            v@ == old(self).collected(),
            old(self).ending() is Finishes,
    {
        proof {
            old(self).inner.model_invariants();
        }
        loop
            invariant
                self.wf(),
                self.collected() == old(self).collected(),
                self.ending() == old(self).ending(),
                !<E::Async as Asynchrony>::is_async(),
                !<E::Failure as Fallible>::fallible(),
            decreases self.inner.remaining().len(),
        {
            let ghost pre_collected = self.collected();
            match self.inner.poll_effect() {
                EffectResult::Item(x) => {
                    self.into.push(x);
                    proof {
                        assert(self.collected() =~= pre_collected);
                    }
                },
                EffectResult::Failure(_) => {
                    return vstd::pervasive::unreached();
                },
                EffectResult::Done(_) => {
                    let mut v = Vec::new();
                    core::mem::swap(&mut self.into, &mut v);
                    proof {
                        assert(v@ =~= pre_collected);
                    }
                    return v;
                },
                EffectResult::Pending(_) => {
                    return vstd::pervasive::unreached();
                },
            }
        }
    }

    /// Extract the collected container once no capability is left: with
    /// suspension and failure off, collection always succeeds.
    pub fn get(self) -> (v: Vec<E::Item>) where
        E: Effective<Failure = core::convert::Infallible, Async = crate::Blocking>,

        requires
            self.wf(),
        ensures
            v@ == self.collected(),
    {
        proof {
            assert(!<crate::Blocking as Asynchrony>::is_async());
            assert(!<core::convert::Infallible as Fallible>::fallible());
        }
        let mut this = self;
        this.drain_sync()
    }

    /// Extract the collected container or the failure.
    pub fn try_get(self) -> (r: Result<Vec<E::Item>, <E::Failure as Fallible>::Failure>) where
        E: Effective<Async = crate::Blocking>,

        requires
            self.wf(),
        ensures
            match r {
                Ok(v) => v@ == self.collected() && self.ending() is Finishes,
                Err(f) => self.ending() matches Ending::Fails(g) && g.peek() == f,
            },
    {
        proof {
            assert(!<crate::Blocking as Asynchrony>::is_async());
        }
        let mut this = self;
        match this.poll_effect() {
            EffectResult::Item(v) => Ok(v),
            EffectResult::Failure(f) => Err(f.inner()),
            _ => vstd::pervasive::unreached(),
        }
    }
}

} // verus!
