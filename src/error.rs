use vstd::prelude::*;

verus! {

/// The ways an operation on the ledger can fail. No operation changes any
/// record when it fails.
#[derive(Debug, Clone, Copy, PartialEq, Eq, Structural)]
pub enum VoteError {
    /// A candidate name is longer than `MAX_TEXT_LEN` bytes.
    IdentityTooLong,
    /// A poll description is longer than `MAX_TEXT_LEN` bytes.
    DescriptionTooLong,
    /// No poll is stored under the poll's key.
    PollNotFound,
    /// No candidate is stored under the candidate's key.
    CandidateNotFound,
    /// A counter would pass `u64::MAX`.
    CounterOverflow,
}

} // verus!
