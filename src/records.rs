//! The two kinds of record the ledger stores, and their mathematical views.
use vstd::prelude::*;

verus! {

/// A poll: a voting event with a description, a time window and the number of
/// candidates registered under it.
#[derive(Debug, Clone, PartialEq, Eq)]
pub struct Poll {
    pub poll_id: u64,
    pub description: String,
    pub poll_start: u64,
    pub poll_end: u64,
    pub candidate_amount: u64,
}

/// The view of a `Poll`.
pub struct PollView {
    pub poll_id: u64,
    pub description: Seq<char>,
    pub poll_start: u64,
    pub poll_end: u64,
    pub candidate_amount: u64,
}

impl View for Poll {
    type V = PollView;

    open spec fn view(&self) -> PollView {
        PollView {
            poll_id: self.poll_id,
            description: self.description@,
            poll_start: self.poll_start,
            poll_end: self.poll_end,
            candidate_amount: self.candidate_amount,
        }
    }
}

impl Poll {
    /// A copy of the poll.
    pub fn copied(&self) -> (r: Poll)
        ensures
            r@ == self@,
    {
        Poll {
            poll_id: self.poll_id,
            description: self.description.clone(),
            poll_start: self.poll_start,
            poll_end: self.poll_end,
            candidate_amount: self.candidate_amount,
        }
    }
}

/// A candidate registered under a poll, with its vote tally.
#[derive(Debug, Clone, PartialEq, Eq)]
pub struct Candidate {
    pub candidate_name: String,
    pub poll_id: u64,
    pub candidate_vote: u64,
}

/// The view of a `Candidate`.
pub struct CandidateView {
    pub candidate_name: Seq<char>,
    pub poll_id: u64,
    pub candidate_vote: u64,
}

impl View for Candidate {
    type V = CandidateView;

    open spec fn view(&self) -> CandidateView {
        CandidateView {
            candidate_name: self.candidate_name@,
            poll_id: self.poll_id,
            candidate_vote: self.candidate_vote,
        }
    }
}

impl Candidate {
    /// A copy of the candidate.
    pub fn copied(&self) -> (r: Candidate)
        ensures
            r@ == self@,
    {
        Candidate {
            candidate_name: self.candidate_name.clone(),
            poll_id: self.poll_id,
            candidate_vote: self.candidate_vote,
        }
    }
}

/// The view of an operation's result that returns a poll.
pub open spec fn poll_result_view(r: Result<Poll, crate::error::VoteError>) -> Result<
    PollView,
    crate::error::VoteError,
> {
    match r {
        Ok(p) => Ok(p@),
        Err(e) => Err(e),
    }
}

/// The view of an operation's result that returns a candidate.
pub open spec fn candidate_result_view(r: Result<Candidate, crate::error::VoteError>) -> Result<
    CandidateView,
    crate::error::VoteError,
> {
    match r {
        Ok(c) => Ok(c@),
        Err(e) => Err(e),
    }
}

} // verus!
