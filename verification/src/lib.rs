//! A single abstraction unifying three computational capabilities — suspending,
//! producing several values, and failing — behind one pollable interface, with
//! combinators that add or subtract capabilities without duplicating logic.
//!
//! A computation is a value implementing [`Effective`]: polling it yields one of
//! four results ([`EffectResult`]). Three type-level markers record which
//! capabilities the computation has; combinators compute their own markers from
//! their components through the algebra in [`utils`].

use vstd::prelude::*;

pub mod impls;
pub mod utils;
pub mod wrappers;

verus! {

/// Construction of a capability marker value.
///
/// Every marker is a unit value; combinators build the marker payload of a
/// `Done` or `Pending` result through this trait.
pub trait SealedMarker: Sized {
    fn new() -> Self;
}

/// The suspension axis: does the computation ever report `Pending`?
pub trait Asynchrony: SealedMarker {
    /// Whether this marker allows `Pending` results.
    spec fn is_async() -> bool;

    /// Runtime view of [`Asynchrony::is_async`], used to select synchronous
    /// fast paths.
    fn async_flag() -> (b: bool)
        ensures
            b == Self::is_async(),
    ;
}

/// The computation may suspend.
pub struct Async;

/// The computation always completes synchronously.
pub struct Blocking;

impl SealedMarker for Async {
    fn new() -> Self {
        Async
    }
}

impl Asynchrony for Async {
    open spec fn is_async() -> bool {
        true
    }

    fn async_flag() -> bool {
        true
    }
}

impl SealedMarker for Blocking {
    fn new() -> Self {
        Blocking
    }
}

impl Asynchrony for Blocking {
    open spec fn is_async() -> bool {
        false
    }

    fn async_flag() -> bool {
        false
    }
}

/// The multiplicity axis: may the computation produce more than one value?
pub trait Iterable: SealedMarker {
    /// Whether this marker allows more than one `Item` before the end.
    spec fn multiple() -> bool;

    /// Runtime view of [`Iterable::multiple`].
    fn multiple_flag() -> (b: bool)
        ensures
            b == Self::multiple(),
    ;
}

/// The computation may produce any number of values.
pub struct Multiple;

/// The computation produces exactly one value, or fails.
pub struct Single;

impl SealedMarker for Multiple {
    fn new() -> Self {
        Multiple
    }
}

impl Iterable for Multiple {
    open spec fn multiple() -> bool {
        true
    }

    fn multiple_flag() -> bool {
        true
    }
}

impl SealedMarker for Single {
    fn new() -> Self {
        Single
    }
}

impl Iterable for Single {
    open spec fn multiple() -> bool {
        false
    }

    fn multiple_flag() -> bool {
        false
    }
}

/// Seals the failure-axis markers.
pub trait SealedFallible {}

/// The failure axis: the type carried by a `Failure` result.
///
/// A fallible computation uses [`Failure<E>`]; an infallible one uses
/// [`core::convert::Infallible`], whose `Failure` results are ruled out by the
/// poll contract rather than by an uninhabited payload.
pub trait Fallible: SealedFallible + Sized {
    /// The underlying failure payload.
    type Failure;

    /// Whether a computation with this failure channel can fail at all.
    spec fn fallible() -> bool;

    /// Runtime view of [`Fallible::fallible`].
    fn fallible_flag() -> (b: bool)
        ensures
            b == Self::fallible(),
    ;

    /// The payload, at the specification level.
    spec fn peek(self) -> Self::Failure;

    /// Extract the payload.
    fn inner(self) -> (r: Self::Failure)
        ensures
            r == self.peek(),
    ;
}

/// A present failure channel carrying payloads of type `T`.
pub struct Failure<T>(pub T);

impl<T> From<T> for Failure<T> {
    fn from(value: T) -> Self {
        Failure(value)
    }
}

impl<T> vstd::std_specs::convert::FromSpecImpl<T> for Failure<T> {
    open spec fn obeys_from_spec() -> bool {
        true
    }

    open spec fn from_spec(t: T) -> Self {
        Failure(t)
    }
}

impl<T> SealedFallible for Failure<T> {

}

impl<T> Fallible for Failure<T> {
    type Failure = T;

    open spec fn fallible() -> bool {
        true
    }

    fn fallible_flag() -> bool {
        true
    }

    open spec fn peek(self) -> T {
        self.0
    }

    fn inner(self) -> T {
        proof {
            assert(self.peek() == self.0);
        }
        self.0
    }
}

impl SealedFallible for core::convert::Infallible {

}

impl Fallible for core::convert::Infallible {
    type Failure = core::convert::Infallible;

    open spec fn fallible() -> bool {
        false
    }

    fn fallible_flag() -> bool {
        false
    }

    open spec fn peek(self) -> core::convert::Infallible {
        self
    }

    fn inner(self) -> core::convert::Infallible {
        self
    }
}

/// How a computation's output sequence ends, in the model: it either finishes
/// normally or ends in one failure value.
pub enum Ending<F> {
    Finishes,
    Fails(F),
}

/// The result of one [`Effective::poll_effect`] call.
pub enum EffectResult<Item, Failure, Produces, Async> {
    /// An item is ready.
    Item(Item),
    /// A failure occurred; the computation is finished.
    Failure(Failure),
    /// No more items will be produced.
    Done(Produces),
    /// No item is ready yet.
    Pending(Async),
}

/// A pollable computation over the three capability axes.
///
/// The model of a computation is the sequence of items it has still to produce
/// ([`Effective::remaining`]) together with how the sequence ends
/// ([`Effective::ending`]). `poll_effect` is specified against that model:
/// items come out in model order, a failure can only be the modelled one, and a
/// `Pending` result leaves the model unchanged, so suspension is never
/// observable in the output, only in timing.
pub trait Effective: Sized {
    /// The values this computation produces.
    type Item;

    /// The failure channel.
    type Failure: Fallible;

    /// The multiplicity marker.
    type Produces: Iterable;

    /// The suspension marker.
    type Async: Asynchrony;

    /// A computation is well-formed until it reaches a terminal result; only a
    /// well-formed computation may be polled.
    spec fn wf(&self) -> bool;

    /// The items this computation has still to produce, in order.
    spec fn remaining(&self) -> Seq<Self::Item>;

    /// How the output sequence ends once `remaining` is exhausted.
    spec fn ending(&self) -> Ending<Self::Failure>;

    /// The model respects the capability markers: a single-valued computation
    /// holds exactly one item or one failure, and an infallible one never ends
    /// in a failure.
    proof fn model_invariants(&self)
        requires
            self.wf(),
        ensures
            !<Self::Produces as Iterable>::multiple() ==> (self.remaining().len() == 1
                && self.ending() is Finishes) || (self.remaining().len() == 0
                && self.ending() is Fails),
            !<Self::Failure as Fallible>::fallible() ==> self.ending() is Finishes,
    ;

    /// Advance the computation and report its current result.
    fn poll_effect(&mut self) -> (r: EffectResult<
        Self::Item,
        Self::Failure,
        Self::Produces,
        Self::Async,
    >)
        requires
            old(self).wf(),
        ensures
            r is Pending ==> <Self::Async as Asynchrony>::is_async(),
            r is Done ==> <Self::Produces as Iterable>::multiple(),
            r is Failure ==> <Self::Failure as Fallible>::fallible(),
            match r {
                EffectResult::Item(x) => {
                    &&& old(self).remaining().len() > 0
                    &&& x == old(self).remaining()[0]
                    &&& <Self::Produces as Iterable>::multiple() ==> {
                        &&& final(self).wf()
                        &&& final(self).remaining() == old(self).remaining().drop_first()
                        &&& final(self).ending() == old(self).ending()
                    }
                    &&& !<Self::Produces as Iterable>::multiple() ==> old(self).remaining().len()
                        == 1
                },
                EffectResult::Failure(f) => {
                    &&& old(self).remaining().len() == 0
                    &&& old(self).ending() == Ending::Fails(f)
                },
                EffectResult::Done(_) => {
                    &&& old(self).remaining().len() == 0
                    &&& old(self).ending() is Finishes
                },
                EffectResult::Pending(_) => {
                    &&& final(self).wf()
                    &&& final(self).remaining() == old(self).remaining()
                    &&& final(self).ending() == old(self).ending()
                },
            },
    ;

    /// Bounds on the number of items still to come: the upper bound is sound,
    /// and the lower bound is sound whenever the computation cannot fail.
    ///
    /// The bounds are informational; nothing else in the library depends on
    /// them.
    fn size_hint(&self) -> (r: (usize, Option<usize>))
        requires
            self.wf(),
        ensures
            match r.1 {
                Some(upper) => self.remaining().len() <= upper,
                None => true,
            },
            !<Self::Failure as Fallible>::fallible() ==> r.0 <= self.remaining().len(),
    {
        proof {
            self.model_invariants();
        }
        if <Self::Produces as Iterable>::multiple_flag() {
            (0, None)
        } else {
            (1, Some(1))
        }
    }
}

/// The result type of one poll of the computation `E`.
pub type EffectiveResult<E> = EffectResult<
    <E as Effective>::Item,
    <E as Effective>::Failure,
    <E as Effective>::Produces,
    <E as Effective>::Async,
>;

/// A simpler stable imitation of `Try`: a value that either continues with a
/// success or breaks with a failure.
pub trait SimpleTry: Sized {
    /// The value which stops execution.
    type Break;

    /// The value execution proceeds with.
    type Continue;

    /// Whether this value continues.
    spec fn is_continue(self) -> bool;

    /// The continue value.
    spec fn continue_of(self) -> Self::Continue
        recommends
            self.is_continue(),
    ;

    /// The break value.
    spec fn break_of(self) -> Self::Break
        recommends
            !self.is_continue(),
    ;

    /// Decide whether execution can continue.
    fn branch(self) -> (cf: core::ops::ControlFlow<Self::Break, Self::Continue>)
        ensures
            match cf {
                core::ops::ControlFlow::Continue(c) => self.is_continue() && c
                    == self.continue_of(),
                core::ops::ControlFlow::Break(b) => !self.is_continue() && b == self.break_of(),
            },
    ;

    /// Reconstruct the value from a break in the control flow.
    fn from_break(b: Self::Break) -> (r: Self)
        ensures
            !r.is_continue(),
            r.break_of() == b,
    ;

    /// Reconstruct the value from a successfully completed control flow.
    fn from_continue(c: Self::Continue) -> (r: Self)
        ensures
            r.is_continue(),
            r.continue_of() == c,
    ;
}

impl<T, E> SimpleTry for Result<T, E> {
    type Break = E;

    type Continue = T;

    open spec fn is_continue(self) -> bool {
        self is Ok
    }

    open spec fn continue_of(self) -> T {
        self->Ok_0
    }

    open spec fn break_of(self) -> E {
        self->Err_0
    }

    fn branch(self) -> core::ops::ControlFlow<E, T> {
        match self {
            Ok(t) => core::ops::ControlFlow::Continue(t),
            Err(e) => core::ops::ControlFlow::Break(e),
        }
    }

    fn from_break(e: E) -> Self {
        Err(e)
    }

    fn from_continue(t: T) -> Self {
        Ok(t)
    }
}

impl<B, C> SimpleTry for core::ops::ControlFlow<B, C> {
    type Break = B;

    type Continue = C;

    open spec fn is_continue(self) -> bool {
        self matches core::ops::ControlFlow::Continue(_)
    }

    open spec fn continue_of(self) -> C {
        match self {
            core::ops::ControlFlow::Continue(c) => c,
            core::ops::ControlFlow::Break(_) => arbitrary(),
        }
    }

    open spec fn break_of(self) -> B {
        match self {
            core::ops::ControlFlow::Continue(_) => arbitrary(),
            core::ops::ControlFlow::Break(b) => b,
        }
    }

    fn branch(self) -> core::ops::ControlFlow<B, C> {
        self
    }

    fn from_break(b: B) -> Self {
        core::ops::ControlFlow::Break(b)
    }

    fn from_continue(c: C) -> Self {
        core::ops::ControlFlow::Continue(c)
    }
}

impl<T> SimpleTry for Option<T> {
    type Break = ();

    type Continue = T;

    open spec fn is_continue(self) -> bool {
        self is Some
    }

    open spec fn continue_of(self) -> T {
        self->0
    }

    open spec fn break_of(self) -> () {
        ()
    }

    fn branch(self) -> core::ops::ControlFlow<(), T> {
        match self {
            Some(t) => core::ops::ControlFlow::Continue(t),
            None => core::ops::ControlFlow::Break(()),
        }
    }

    fn from_break(_b: ()) -> Self {
        None
    }

    fn from_continue(t: T) -> Self {
        Some(t)
    }
}

} // verus!
