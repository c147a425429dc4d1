//! The three operations on a ledger: create a poll, register a candidate under
//! a poll, and cast a vote. Each checks its inputs against the ledger before it
//! changes anything, so a failed operation leaves the ledger as it was.
use vstd::prelude::*;

use crate::error::VoteError;
use crate::identity::{derive_candidate_key, derive_poll_key, fits};
use crate::ledger::Ledger;
use crate::records::{candidate_result_view, poll_result_view, Candidate, Poll};
use crate::transitions::{
    after_registration, after_vote, after_voting, lemma_amount_counts,
    lemma_registration_keeps_wf, lemma_vote_keeps_wf, lemma_voting_keeps_wf,
    poll_counted_once_more, registration_outcome, vote_outcome, voting_outcome,
};

verus! {

/// The caller of an operation, whose authority the host has verified before
/// the call. The ledger records no signer and checks none.
#[derive(Debug, Clone, Copy, PartialEq, Eq)]
pub struct Signer {
    pub key: [u8; 32],
}

/// The caller of `initialize_voting`.
#[derive(Debug, Clone, Copy, PartialEq, Eq)]
pub struct InitializePoll {
    pub signer: Signer,
}

/// The caller of `initialize_candidate`.
#[derive(Debug, Clone, Copy, PartialEq, Eq)]
pub struct InitializeCandidate {
    pub signer: Signer,
}

/// The caller of `vote`.
#[derive(Debug, Clone, Copy, PartialEq, Eq)]
pub struct Vote {
    pub signer: Signer,
}

/// Creates the poll `poll_id`, or overwrites its id, window and description
/// if it exists; its candidate count is kept. Fails with `DescriptionTooLong`
/// when the description is longer than `MAX_TEXT_LEN` bytes.
pub fn initialize_voting(
    _ctx: &InitializePoll,
    ledger: &mut Ledger,
    poll_id: u64,
    poll_start: u64,
    poll_end: u64,
    description: String,
) -> (r: Result<Poll, VoteError>)
    requires
        old(ledger).wf(),
    ensures
        final(ledger).wf(),
        poll_result_view(r) == voting_outcome(
            old(ledger)@,
            poll_id,
            poll_start,
            poll_end,
            description@,
        ),
        final(ledger)@ == after_voting(old(ledger)@, poll_id, poll_start, poll_end, description@),
{
    proof {
        lemma_voting_keeps_wf(ledger@, poll_id, poll_start, poll_end, description@);
    }
    if !fits(description.as_str()) {
        return Err(VoteError::DescriptionTooLong);
    }
    let key = derive_poll_key(poll_id);
    let candidate_amount = match ledger.get_poll(&key) {
        Some(p) => p.candidate_amount,
        None => 0,
    };
    let poll = Poll { poll_id, description, poll_start, poll_end, candidate_amount };
    let out = poll.copied();
    ledger.put_poll(key, poll);
    Ok(out)
}

/// Registers the candidate `candidate_name` under the poll `poll_id` and
/// returns it. A new candidate starts with no votes and raises the poll's
/// candidate count by one; registering a candidate again changes nothing.
/// Fails with `IdentityTooLong` for a name longer than `MAX_TEXT_LEN` bytes,
/// `PollNotFound` when the poll is not stored, and `CounterOverflow` when a
/// new candidate would take the count past `u64::MAX`.
pub fn initialize_candidate(
    _ctx: &InitializeCandidate,
    ledger: &mut Ledger,
    candidate_name: String,
    poll_id: u64,
) -> (r: Result<Candidate, VoteError>)
    requires
        old(ledger).wf(),
    ensures
        final(ledger).wf(),
        candidate_result_view(r) == registration_outcome(old(ledger)@, candidate_name@, poll_id),
        final(ledger)@ == after_registration(old(ledger)@, candidate_name@, poll_id),
{
    proof {
        lemma_registration_keeps_wf(ledger@, candidate_name@, poll_id);
        lemma_amount_counts(ledger@, poll_id);
    }
    let poll_key = derive_poll_key(poll_id);
    let candidate_key = match derive_candidate_key(poll_id, candidate_name.as_str()) {
        Ok(k) => k,
        Err(e) => return Err(e),
    };
    let counted = match ledger.get_poll(&poll_key) {
        None => return Err(VoteError::PollNotFound),
        Some(p) => {
            if ledger.get_candidate(&candidate_key).is_some() {
                None
            } else if p.candidate_amount == u64::MAX {
                return Err(VoteError::CounterOverflow);
            } else {
                Some(
                    Poll {
                        poll_id,
                        description: p.description.clone(),
                        poll_start: p.poll_start,
                        poll_end: p.poll_end,
                        candidate_amount: p.candidate_amount + 1,
                    },
                )
            }
        },
    };
    let candidate_vote = match ledger.get_candidate(&candidate_key) {
        Some(c) => c.candidate_vote,
        None => 0,
    };
    let candidate = Candidate { candidate_name, poll_id, candidate_vote };
    let out = candidate.copied();
    ledger.put_candidate(candidate_key, candidate);
    match counted {
        Some(p) => {
            assert(p@ == poll_counted_once_more(old(ledger)@, poll_id));
            ledger.put_poll(poll_key, p);
        },
        None => {
            assert(ledger@ == old(ledger)@.with_candidate(out@));
        },
    }
    Ok(out)
}

/// Adds one vote to the candidate `candidate_name` under the poll `poll_id`
/// and returns the candidate. Fails with `IdentityTooLong` for a name longer
/// than `MAX_TEXT_LEN` bytes, `PollNotFound` when the poll is not stored,
/// `CandidateNotFound` when the candidate is not registered under it, and
/// `CounterOverflow` when the tally is already `u64::MAX`.
pub fn vote(_ctx: &Vote, ledger: &mut Ledger, candidate_name: String, poll_id: u64) -> (r: Result<
    Candidate,
    VoteError,
>)
    requires
        old(ledger).wf(),
    ensures
        final(ledger).wf(),
        candidate_result_view(r) == vote_outcome(old(ledger)@, candidate_name@, poll_id),
        final(ledger)@ == after_vote(old(ledger)@, candidate_name@, poll_id),
{
    proof {
        lemma_vote_keeps_wf(ledger@, candidate_name@, poll_id);
    }
    let poll_key = derive_poll_key(poll_id);
    let candidate_key = match derive_candidate_key(poll_id, candidate_name.as_str()) {
        Ok(k) => k,
        Err(e) => return Err(e),
    };
    if ledger.get_poll(&poll_key).is_none() {
        return Err(VoteError::PollNotFound);
    }
    let candidate_vote = match ledger.get_candidate(&candidate_key) {
        None => return Err(VoteError::CandidateNotFound),
        Some(c) => c.candidate_vote,
    };
    if candidate_vote == u64::MAX {
        return Err(VoteError::CounterOverflow);
    }
    let candidate = Candidate { candidate_name, poll_id, candidate_vote: candidate_vote + 1 };
    let out = candidate.copied();
    ledger.put_candidate(candidate_key, candidate);
    Ok(out)
}

} // verus!
