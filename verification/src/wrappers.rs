//! Constructors that lift plain values into computations.

pub mod fallible;
pub mod from_fn;
pub mod from_try;
pub mod future;
pub mod iterator;
pub mod once;
pub mod unfold;

pub use fallible::{fallible, FromFallible};
pub use from_fn::{from_fn_once, FromFnOnce};
pub use from_try::{from_try, FromTry};
pub use future::{future, FromFuture};
pub use iterator::{iterator, FromIterator};
pub use once::{once, Once};
pub use unfold::{unfold, Unfold};
