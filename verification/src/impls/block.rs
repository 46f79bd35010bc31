//! The combinator that subtracts the suspension capability by handing
//! control to an injected driver.

use vstd::prelude::*;

use crate::{Async, Asynchrony, Blocking, EffectResult, Effective, Ending, Iterable, Fallible};

verus! {

/// A driver that can park the current thread of control and re-poll a
/// suspended computation until it reports something other than `Pending`.
///
/// The library provides no implementation: a driver is injected by the host,
/// and what is proved through this trait holds only as far as the driver
/// keeps its contract — in particular that it eventually stops parking, which
/// is the host runtime's liveness obligation.
pub trait Executor {
    /// Repeatedly poll `e`, parking between polls, until a result other than
    /// `Pending` arrives, and report that result.
    fn block_on<E: Effective>(&mut self, e: &mut E) -> (r: EffectResult<
        E::Item,
        E::Failure,
        E::Produces,
        Blocking,
    >)
        requires
            old(e).wf(),
        ensures
            !(r is Pending),
            r is Done ==> <E::Produces as Iterable>::multiple(),
            r is Failure ==> <E::Failure as Fallible>::fallible(),
            match r {
                EffectResult::Item(x) => {
                    &&& old(e).remaining().len() > 0
                    &&& x == old(e).remaining()[0]
                    &&& <E::Produces as Iterable>::multiple() ==> {
                        &&& final(e).wf()
                        &&& final(e).remaining() == old(e).remaining().drop_first()
                        &&& final(e).ending() == old(e).ending()
                    }
                    &&& !<E::Produces as Iterable>::multiple() ==> old(e).remaining().len() == 1
                },
                EffectResult::Failure(f) => old(e).remaining().len() == 0 && old(e).ending()
                    == Ending::Fails(f),
                EffectResult::Done(_) => old(e).remaining().len() == 0 && old(e).ending()
                    is Finishes,
                EffectResult::Pending(_) => false,
            },
    ;
}

/// Produced by the [`block_on()`](crate::impls::EffectiveExt::block_on)
/// method.
pub struct Block<E, R> {
    pub inner: E,
    pub executor: R,
}

impl<E: Effective<Async = Async>, R: Executor> Effective for Block<E, R> {
    type Item = E::Item;

    type Failure = E::Failure;

    type Produces = E::Produces;

    type Async = Blocking;

    open spec fn wf(&self) -> bool {
        self.inner.wf()
    }

    open spec fn remaining(&self) -> Seq<E::Item> {
        self.inner.remaining()
    }

    open spec fn ending(&self) -> Ending<E::Failure> {
        self.inner.ending()
    }

    proof fn model_invariants(&self) {
        self.inner.model_invariants();
        assert(self.remaining() == self.inner.remaining());
    }

    fn poll_effect(&mut self) -> (r: EffectResult<E::Item, E::Failure, E::Produces, Blocking>) {
        self.executor.block_on(&mut self.inner)
    }

    fn size_hint(&self) -> (r: (usize, Option<usize>)) {
        self.inner.size_hint()
    }
}

} // verus!
