//! The outcome of a store operation run under a deadline.

use vstd::prelude::*;

verus! {

/// An operation that ran under a deadline: its value, the backend's failure
/// message, or no answer in time.
#[derive(Clone, Debug)]
pub enum Timed<T> {
    Completed(T),
    Failed(String),
    TimedOut,
}

} // verus!
