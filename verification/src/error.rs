use vstd::prelude::*;

verus! {

/// Errors surfaced by the calculation library.  All of them are local
/// validation failures: nothing is retried and nothing is silently corrected.
#[derive(Debug, PartialEq, Eq, Clone)]
pub enum Error {
    /// A month number outside 1..=12 was supplied.
    InvalidMonth(i8),
    /// A date or clock time is not representable.
    InvalidTime,
    /// A failure reported by an underlying date/time construction.
    InvalidArgument(String),
}

} // verus!
