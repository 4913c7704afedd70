//! The ways in which a fetch or a search can fail.

use vstd::prelude::*;

verus! {

/// Why the links of a title could not be fetched. None of these ends a search: the title is
/// passed over.
#[derive(Debug)]
pub enum FetchError {
    /// The request failed or timed out; the text says how.
    Request(String),
    /// The reply came with a status outside the successful range.
    Status(u16),
    /// The body of the reply could not be read; the text says why.
    Body(String),
    /// The body of the reply was not a link query reply; the text says why.
    Decode(String),
}

/// Why a search ended without a path.
#[derive(Debug)]
pub enum SearchError {
    /// Every title that can be reached from the start has been expanded, and the target is
    /// not among them.
    Exhausted,
    /// The chain of parents from the target breaks at this title, which is not the start and
    /// has no parent on record. A sound search never produces this.
    MissingParent(String),
    /// The chain of parents from the target runs in a circle and never arrives at the start.
    /// A sound search never produces this.
    ParentCycle,
}

} // verus!
