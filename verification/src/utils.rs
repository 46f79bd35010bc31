//! The capability combination algebra used by combinators that nest two
//! computations: per axis, the combined capability is on exactly when either
//! side's is, and a combined failure channel admits a value-preserving widening
//! from each side.

use vstd::prelude::*;

use crate::{Async, Asynchrony, Blocking, Effective, Failure, Fallible, Iterable, Multiple,
    SealedMarker, Single};

verus! {

/// Combines the suspension markers of an outer and an inner computation.
///
/// The combined computation suspends exactly when either side does.
pub trait AsyncWith<Rhs: Asynchrony>: Asynchrony {
    /// The combined suspension marker.
    type IsAsync: Asynchrony;

    /// The OR-rule of the suspension axis.
    proof fn async_or()
        ensures
            <Self::IsAsync as Asynchrony>::is_async() == (Self::is_async() || Rhs::is_async()),
    ;

    /// Widen this side's `Pending` marker into the combined one.
    fn into_async(self) -> Self::IsAsync {
        <Self::IsAsync as SealedMarker>::new()
    }

    /// Widen the other side's `Pending` marker into the combined one.
    fn from_async(_x: Rhs) -> Self::IsAsync {
        <Self::IsAsync as SealedMarker>::new()
    }
}

impl AsyncWith<Async> for Async {
    type IsAsync = Async;

    proof fn async_or() {
    }
}

impl AsyncWith<Async> for Blocking {
    type IsAsync = Async;

    proof fn async_or() {
    }
}

impl AsyncWith<Blocking> for Async {
    type IsAsync = Async;

    proof fn async_or() {
    }
}

impl AsyncWith<Blocking> for Blocking {
    type IsAsync = Blocking;

    proof fn async_or() {
    }
}

/// Combines the multiplicity markers of an outer and an inner computation.
///
/// The combined computation may produce several values exactly when either
/// side may.
pub trait IterableWith<Rhs: Iterable>: Iterable {
    /// The combined multiplicity marker.
    type IsIterable: Iterable;

    /// The OR-rule of the multiplicity axis.
    proof fn multiple_or()
        ensures
            <Self::IsIterable as Iterable>::multiple() == (Self::multiple() || Rhs::multiple()),
    ;
}

impl IterableWith<Multiple> for Multiple {
    type IsIterable = Multiple;

    proof fn multiple_or() {
    }
}

impl IterableWith<Multiple> for Single {
    type IsIterable = Multiple;

    proof fn multiple_or() {
    }
}

impl IterableWith<Single> for Multiple {
    type IsIterable = Multiple;

    proof fn multiple_or() {
    }
}

impl IterableWith<Single> for Single {
    type IsIterable = Single;

    proof fn multiple_or() {
    }
}

/// Combines the failure channels of an outer and an inner computation.
///
/// The combined channel can fail exactly when either side can, and each side's
/// failure widens into it without loss: the widenings are injective wherever
/// the side can fail at all.
pub trait FallibleWith<Rhs: Fallible>: Fallible {
    /// The combined failure channel.
    type Combined: Fallible;

    /// What this side's failure widens to.
    spec fn spec_into_fail(self) -> Self::Combined;

    /// What the other side's failure widens to.
    spec fn spec_from_fail(x: Rhs) -> Self::Combined;

    /// The OR-rule of the failure axis, and the widenings preserve values.
    proof fn fallible_or()
        ensures
            <Self::Combined as Fallible>::fallible() == (Self::fallible() || Rhs::fallible()),
            Self::fallible() ==> forall|x: Self, y: Self|
                x.spec_into_fail() == y.spec_into_fail() ==> x == y,
            Rhs::fallible() ==> forall|x: Rhs, y: Rhs|
                Self::spec_from_fail(x) == Self::spec_from_fail(y) ==> x == y,
    ;

    /// Widen this side's failure into the combined channel.
    fn into_fail(self) -> (r: Self::Combined)
        requires
            Self::fallible(),
        ensures
            r == self.spec_into_fail(),
    ;

    /// Widen the other side's failure into the combined channel.
    fn from_fail(x: Rhs) -> (r: Self::Combined)
        requires
            Rhs::fallible(),
        ensures
            r == Self::spec_from_fail(x),
    ;
}

impl<F> FallibleWith<Failure<F>> for Failure<F> {
    type Combined = Failure<F>;

    open spec fn spec_into_fail(self) -> Failure<F> {
        self
    }

    open spec fn spec_from_fail(x: Failure<F>) -> Failure<F> {
        x
    }

    proof fn fallible_or() {
    }

    fn into_fail(self) -> Failure<F> {
        self
    }

    fn from_fail(x: Failure<F>) -> Failure<F> {
        x
    }
}

impl<F> FallibleWith<Failure<F>> for core::convert::Infallible {
    type Combined = Failure<F>;

    open spec fn spec_into_fail(self) -> Failure<F> {
        arbitrary()
    }

    open spec fn spec_from_fail(x: Failure<F>) -> Failure<F> {
        x
    }

    proof fn fallible_or() {
    }

    fn into_fail(self) -> Failure<F> {
        vstd::pervasive::unreached()
    }

    fn from_fail(x: Failure<F>) -> Failure<F> {
        x
    }
}

impl<F> FallibleWith<core::convert::Infallible> for Failure<F> {
    type Combined = Failure<F>;

    open spec fn spec_into_fail(self) -> Failure<F> {
        self
    }

    open spec fn spec_from_fail(x: core::convert::Infallible) -> Failure<F> {
        arbitrary()
    }

    proof fn fallible_or() {
    }

    fn into_fail(self) -> Failure<F> {
        self
    }

    fn from_fail(_x: core::convert::Infallible) -> Failure<F> {
        vstd::pervasive::unreached()
    }
}

impl FallibleWith<core::convert::Infallible> for core::convert::Infallible {
    type Combined = core::convert::Infallible;

    open spec fn spec_into_fail(self) -> core::convert::Infallible {
        self
    }

    open spec fn spec_from_fail(x: core::convert::Infallible) -> core::convert::Infallible {
        x
    }

    proof fn fallible_or() {
    }

    fn into_fail(self) -> core::convert::Infallible {
        self
    }

    fn from_fail(x: core::convert::Infallible) -> core::convert::Infallible {
        x
    }
}

/// Widen the inner computation's failure into the combined channel.
pub fn from_fail<E1: Effective, E2: Effective>(x: <E2 as Effective>::Failure) -> (r: FalliblePair<
    E1,
    E2,
>) where <E1 as Effective>::Failure: FallibleWith<<E2 as Effective>::Failure>
    requires
        <<E2 as Effective>::Failure as Fallible>::fallible(),
    ensures
        r == <<E1 as Effective>::Failure as FallibleWith<
            <E2 as Effective>::Failure,
        >>::spec_from_fail(x),
{
    <<E1 as Effective>::Failure as FallibleWith<<E2 as Effective>::Failure>>::from_fail(x)
}

/// Build the combined `Pending` marker from the inner computation's.
pub fn from_async<E1: Effective, E2: Effective>(x: <E2 as Effective>::Async) -> AsyncPair<
    E1,
    E2,
> where <E1 as Effective>::Async: AsyncWith<<E2 as Effective>::Async> {
    <<E1 as Effective>::Async as AsyncWith<<E2 as Effective>::Async>>::from_async(x)
}

/// The combined failure channel of two nested computations.
pub type FalliblePair<E1, E2> = <<E1 as Effective>::Failure as FallibleWith<
    <E2 as Effective>::Failure,
>>::Combined;

/// The combined suspension marker of two nested computations.
pub type AsyncPair<E1, E2> = <<E1 as Effective>::Async as AsyncWith<
    <E2 as Effective>::Async,
>>::IsAsync;

/// The combined multiplicity marker of two nested computations.
pub type IterablePair<E1, E2> = <<E1 as Effective>::Produces as IterableWith<
    <E2 as Effective>::Produces,
>>::IsIterable;

} // verus!
