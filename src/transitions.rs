//! The three operations as functions on ledger contents: what each returns
//! and what the ledger holds afterwards. Every operation keeps the ledger's
//! invariants.
use vstd::prelude::*;

use crate::error::VoteError;
use crate::identity::{
    candidate_key, lemma_candidate_key_injective, lemma_poll_key_injective, poll_key, text_fits,
};
use crate::ledger::{registered_under, LedgerView};
use crate::records::{CandidateView, PollView};

verus! {

/// The `candidate_amount` that the poll `poll_id` has now, or 0 if it is not
/// stored.
pub open spec fn amount_of(s: LedgerView, poll_id: u64) -> u64 {
    if s.has_poll(poll_id) {
        s.poll(poll_id).candidate_amount
    } else {
        0
    }
}

/// What `initialize_voting` returns: the poll with the given fields, keeping
/// the candidate count it had, or an error for an over-long description.
pub open spec fn voting_outcome(
    s: LedgerView,
    poll_id: u64,
    poll_start: u64,
    poll_end: u64,
    description: Seq<char>,
) -> Result<PollView, VoteError> {
    if !text_fits(description) {
        Err(VoteError::DescriptionTooLong)
    } else {
        Ok(
            PollView {
                poll_id,
                description,
                poll_start,
                poll_end,
                candidate_amount: amount_of(s, poll_id),
            },
        )
    }
}

/// The ledger after `initialize_voting`.
pub open spec fn after_voting(
    s: LedgerView,
    poll_id: u64,
    poll_start: u64,
    poll_end: u64,
    description: Seq<char>,
) -> LedgerView {
    match voting_outcome(s, poll_id, poll_start, poll_end, description) {
        Ok(p) => s.with_poll(p),
        Err(_) => s,
    }
}

/// What `initialize_candidate` returns. A registered candidate keeps its votes;
/// a new one starts at zero and needs room in its poll's counter.
pub open spec fn registration_outcome(s: LedgerView, name: Seq<char>, poll_id: u64) -> Result<
    CandidateView,
    VoteError,
> {
    if !text_fits(name) {
        Err(VoteError::IdentityTooLong)
    } else if !s.has_poll(poll_id) {
        Err(VoteError::PollNotFound)
    } else if s.has_candidate(poll_id, name) {
        Ok(
            CandidateView {
                candidate_name: name,
                poll_id,
                candidate_vote: s.candidate(poll_id, name).candidate_vote,
            },
        )
    } else if s.poll(poll_id).candidate_amount == u64::MAX {
        Err(VoteError::CounterOverflow)
    } else {
        Ok(CandidateView { candidate_name: name, poll_id, candidate_vote: 0 })
    }
}

/// The poll `poll_id` with one more candidate counted.
pub open spec fn poll_counted_once_more(s: LedgerView, poll_id: u64) -> PollView {
    let p = s.poll(poll_id);
    PollView {
        poll_id,
        description: p.description,
        poll_start: p.poll_start,
        poll_end: p.poll_end,
        candidate_amount: (p.candidate_amount + 1) as u64,
    }
}

/// The ledger after `initialize_candidate`: the candidate stored, and the
/// poll's counter raised only when the candidate is new.
pub open spec fn after_registration(s: LedgerView, name: Seq<char>, poll_id: u64) -> LedgerView {
    match registration_outcome(s, name, poll_id) {
        Ok(c) => if s.has_candidate(poll_id, name) {
            s.with_candidate(c)
        } else {
            s.with_candidate(c).with_poll(poll_counted_once_more(s, poll_id))
        },
        Err(_) => s,
    }
}

/// What `vote` returns: the candidate with one more vote.
pub open spec fn vote_outcome(s: LedgerView, name: Seq<char>, poll_id: u64) -> Result<
    CandidateView,
    VoteError,
> {
    if !text_fits(name) {
        Err(VoteError::IdentityTooLong)
    } else if !s.has_poll(poll_id) {
        Err(VoteError::PollNotFound)
    } else if !s.has_candidate(poll_id, name) {
        Err(VoteError::CandidateNotFound)
    } else if s.candidate(poll_id, name).candidate_vote == u64::MAX {
        Err(VoteError::CounterOverflow)
    } else {
        Ok(
            CandidateView {
                candidate_name: name,
                poll_id,
                candidate_vote: (s.candidate(poll_id, name).candidate_vote + 1) as u64,
            },
        )
    }
}

/// The ledger after `vote`.
pub open spec fn after_vote(s: LedgerView, name: Seq<char>, poll_id: u64) -> LedgerView {
    match vote_outcome(s, name, poll_id) {
        Ok(c) => s.with_candidate(c),
        Err(_) => s,
    }
}

/// Storing a candidate changes the set of its own poll's candidates by its
/// key, and removes the key from every other poll's set.
pub proof fn lemma_registered_after_insert(
    cands: Map<Seq<u8>, CandidateView>,
    key: Seq<u8>,
    c: CandidateView,
    poll_id: u64,
)
    ensures
        registered_under(cands.insert(key, c), poll_id) == if c.poll_id == poll_id {
            registered_under(cands, poll_id).insert(key)
        } else {
            registered_under(cands, poll_id).remove(key)
        },
{
    if c.poll_id == poll_id {
        assert(registered_under(cands.insert(key, c), poll_id) =~= registered_under(
            cands,
            poll_id,
        ).insert(key));
    } else {
        assert(registered_under(cands.insert(key, c), poll_id) =~= registered_under(
            cands,
            poll_id,
        ).remove(key));
    }
}

/// In a well-formed ledger the stored poll `poll_id` carries that id, and
/// `amount_of` counts the candidates registered under `poll_id`.
pub proof fn lemma_amount_counts(s: LedgerView, poll_id: u64)
    requires
        s.wf(),
    ensures
        s.has_poll(poll_id) ==> s.poll(poll_id).poll_id == poll_id,
        amount_of(s, poll_id) == registered_under(s.candidates, poll_id).len(),
{
    let k = poll_key(poll_id);
    if s.has_poll(poll_id) {
        lemma_poll_key_injective(s.polls[k].poll_id, poll_id);
    } else {
        assert forall|ck: Seq<u8>| !registered_under(s.candidates, poll_id).contains(ck) by {
            if s.candidates.contains_key(ck) && s.candidates[ck].poll_id == poll_id {
                assert(s.has_poll(s.candidates[ck].poll_id));
            }
        }
        assert(registered_under(s.candidates, poll_id) =~= Set::empty());
    }
}

/// In a well-formed ledger the stored candidate `name` under `poll_id`
/// carries that name and id.
pub proof fn lemma_candidate_fields(s: LedgerView, name: Seq<char>, poll_id: u64)
    requires
        s.wf(),
        s.has_candidate(poll_id, name),
    ensures
        s.candidate(poll_id, name).candidate_name == name,
        s.candidate(poll_id, name).poll_id == poll_id,
{
    let c = s.candidate(poll_id, name);
    lemma_candidate_key_injective(c.poll_id, c.candidate_name, poll_id, name);
}

/// Storing a poll whose description fits and whose counter matches its
/// candidates keeps a ledger well-formed.
pub proof fn lemma_with_poll_wf(s: LedgerView, p: PollView)
    requires
        s.wf(),
        text_fits(p.description),
        p.candidate_amount == registered_under(s.candidates, p.poll_id).len(),
    ensures
        s.with_poll(p).wf(),
{
    let t = s.with_poll(p);
    assert forall|k: Seq<u8>| #[trigger] t.candidates.contains_key(k) implies t.has_poll(
        t.candidates[k].poll_id,
    ) by {
        assert(s.has_poll(s.candidates[k].poll_id));
    }
}

/// `initialize_voting` keeps a ledger well-formed.
pub proof fn lemma_voting_keeps_wf(
    s: LedgerView,
    poll_id: u64,
    poll_start: u64,
    poll_end: u64,
    description: Seq<char>,
)
    requires
        s.wf(),
    ensures
        after_voting(s, poll_id, poll_start, poll_end, description).wf(),
{
    if let Ok(p) = voting_outcome(s, poll_id, poll_start, poll_end, description) {
        lemma_amount_counts(s, poll_id);
        lemma_with_poll_wf(s, p);
    }
}

/// `initialize_candidate` keeps a ledger well-formed.
pub proof fn lemma_registration_keeps_wf(s: LedgerView, name: Seq<char>, poll_id: u64)
    requires
        s.wf(),
    ensures
        after_registration(s, name, poll_id).wf(),
{
    if let Ok(c) = registration_outcome(s, name, poll_id) {
        let ck = candidate_key(poll_id, name);
        let pk = poll_key(poll_id);
        if s.has_candidate(poll_id, name) {
            lemma_candidate_fields(s, name, poll_id);
            assert(s.candidates.insert(ck, c) =~= s.candidates);
            assert(s.with_candidate(c) =~= s);
        } else {
            lemma_amount_counts(s, poll_id);
            let s1 = s.with_candidate(c);
            let t = s1.with_poll(poll_counted_once_more(s, poll_id));
            assert forall|id: u64| #[trigger]
                registered_under(s1.candidates, id).len() == if id == poll_id {
                    registered_under(s.candidates, id).len() + 1int
                } else {
                    registered_under(s.candidates, id).len() as int
                } by {
                lemma_registered_after_insert(s.candidates, ck, c, id);
                s.candidates.dom().lemma_len_filter(
                    |k: Seq<u8>| s.candidates[k].poll_id == id,
                );
            }
            assert forall|k: Seq<u8>| #[trigger] t.polls.contains_key(k) implies {
                &&& k == poll_key(t.polls[k].poll_id)
                &&& text_fits(t.polls[k].description)
                &&& t.polls[k].candidate_amount == registered_under(
                    t.candidates,
                    t.polls[k].poll_id,
                ).len()
            } by {
                if k != pk {
                    let id = s.polls[k].poll_id;
                    assert(s.polls.contains_key(k));
                    lemma_poll_key_injective(id, poll_id);
                    assert(registered_under(s1.candidates, id).len() == registered_under(
                        s.candidates,
                        id,
                    ).len());
                } else {
                    assert(registered_under(s1.candidates, poll_id).len() == registered_under(
                        s.candidates,
                        poll_id,
                    ).len() + 1);
                }
            }
            assert forall|k: Seq<u8>| #[trigger] t.candidates.contains_key(k) implies {
                &&& k == candidate_key(t.candidates[k].poll_id, t.candidates[k].candidate_name)
                &&& text_fits(t.candidates[k].candidate_name)
                &&& t.has_poll(t.candidates[k].poll_id)
            } by {
                if k != ck {
                    assert(s.candidates.contains_key(k));
                }
            }
        }
    }
}

/// `vote` keeps a ledger well-formed.
pub proof fn lemma_vote_keeps_wf(s: LedgerView, name: Seq<char>, poll_id: u64)
    requires
        s.wf(),
    ensures
        after_vote(s, name, poll_id).wf(),
{
    if let Ok(c) = vote_outcome(s, name, poll_id) {
        let ck = candidate_key(poll_id, name);
        lemma_candidate_fields(s, name, poll_id);
        let t = s.with_candidate(c);
        assert forall|id: u64| #[trigger]
            registered_under(t.candidates, id) == registered_under(s.candidates, id) by {
            lemma_registered_after_insert(s.candidates, ck, c, id);
            if id == poll_id {
                assert(registered_under(s.candidates, id).insert(ck) =~= registered_under(
                    s.candidates,
                    id,
                ));
            } else {
                assert(registered_under(s.candidates, id).remove(ck) =~= registered_under(
                    s.candidates,
                    id,
                ));
            }
        }
        assert forall|k: Seq<u8>| #[trigger] t.polls.contains_key(k) implies {
            &&& k == poll_key(t.polls[k].poll_id)
            &&& text_fits(t.polls[k].description)
            &&& t.polls[k].candidate_amount == registered_under(
                t.candidates,
                t.polls[k].poll_id,
            ).len()
        } by {
            assert(registered_under(t.candidates, t.polls[k].poll_id) == registered_under(
                s.candidates,
                t.polls[k].poll_id,
            ));
        }
        assert forall|k: Seq<u8>| #[trigger] t.candidates.contains_key(k) implies {
            &&& k == candidate_key(t.candidates[k].poll_id, t.candidates[k].candidate_name)
            &&& text_fits(t.candidates[k].candidate_name)
            &&& t.has_poll(t.candidates[k].poll_id)
        } by {
            assert(s.candidates.contains_key(k));
        }
    }
}

} // verus!
