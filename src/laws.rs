//! Properties of sequences of operations, proved over the operations' models.
use vstd::prelude::*;

use crate::error::VoteError;
use crate::identity::{
    candidate_key, lemma_candidate_key_injective, lemma_poll_key_injective, text_fits,
};
use crate::ledger::LedgerView;
use crate::transitions::{
    after_registration, after_vote, lemma_candidate_fields, lemma_registration_keeps_wf,
    lemma_vote_keeps_wf, registration_outcome, vote_outcome,
};

verus! {

/// The ledger after registering each of `names`, in order, under `poll_id`.
pub open spec fn register_all(s: LedgerView, names: Seq<Seq<char>>, poll_id: u64) -> LedgerView
    decreases names.len(),
{
    if names.len() == 0 {
        s
    } else {
        after_registration(register_all(s, names.drop_last(), poll_id), names.last(), poll_id)
    }
}

/// The ledger after `k` votes for the candidate `name` under `poll_id`.
pub open spec fn vote_times(s: LedgerView, name: Seq<char>, poll_id: u64, k: nat) -> LedgerView
    decreases k,
{
    if k == 0 {
        s
    } else {
        after_vote(vote_times(s, name, poll_id, (k - 1) as nat), name, poll_id)
    }
}

/// Registering distinct, new names under a stored poll, in any order, raises
/// its candidate count by the number of names, provided the count stays within
/// `u64`; the ledger stays well-formed, and every name is then registered.
pub proof fn lemma_register_distinct_counts(s: LedgerView, names: Seq<Seq<char>>, poll_id: u64)
    requires
        s.wf(),
        s.has_poll(poll_id),
        names.no_duplicates(),
        forall|i: int| 0 <= i < names.len() ==> #[trigger] text_fits(names[i]),
        forall|i: int| 0 <= i < names.len() ==> !s.has_candidate(poll_id, #[trigger] names[i]),
        s.poll(poll_id).candidate_amount + names.len() <= u64::MAX,
    ensures
        register_all(s, names, poll_id).wf(),
        register_all(s, names, poll_id).has_poll(poll_id),
        register_all(s, names, poll_id).poll(poll_id).candidate_amount == s.poll(
            poll_id,
        ).candidate_amount + names.len(),
        forall|i: int|
            0 <= i < names.len() ==> register_all(s, names, poll_id).has_candidate(
                poll_id,
                #[trigger] names[i],
            ),
    decreases names.len(),
{
    if names.len() > 0 {
        let front = names.drop_last();
        let name = names.last();
        assert forall|i: int| 0 <= i < front.len() implies #[trigger] text_fits(front[i]) by {
            assert(text_fits(names[i]));
        }
        assert forall|i: int| 0 <= i < front.len() implies !s.has_candidate(
            poll_id,
            #[trigger] front[i],
        ) by {
            assert(!s.has_candidate(poll_id, names[i]));
        }
        lemma_register_distinct_counts(s, front, poll_id);
        let t = register_all(s, front, poll_id);
        assert(text_fits(names[names.len() - 1]));
        assert(!s.has_candidate(poll_id, names[names.len() - 1]));
        assert(!t.has_candidate(poll_id, name)) by {
            if t.has_candidate(poll_id, name) {
                lemma_only_listed_registered(s, front, poll_id, name);
                let j = choose|j: int| 0 <= j < front.len() && front[j] == name;
                assert(names[j] == names[names.len() - 1]);
            }
        }
        lemma_registration_keeps_wf(t, name, poll_id);
        let u = after_registration(t, name, poll_id);
        assert forall|i: int| 0 <= i < names.len() implies u.has_candidate(
            poll_id,
            #[trigger] names[i],
        ) by {
            if i < front.len() {
                assert(t.has_candidate(poll_id, front[i]));
            }
        }
    }
}

/// After registering `names` under `poll_id`, a candidate under that poll is
/// registered only if it was before or is one of `names`.
pub proof fn lemma_only_listed_registered(
    s: LedgerView,
    names: Seq<Seq<char>>,
    poll_id: u64,
    name: Seq<char>,
)
    requires
        register_all(s, names, poll_id).has_candidate(poll_id, name),
    ensures
        s.has_candidate(poll_id, name) || exists|j: int| 0 <= j < names.len() && names[j] == name,
    decreases names.len(),
{
    if names.len() > 0 {
        let front = names.drop_last();
        let t = register_all(s, front, poll_id);
        if t.has_candidate(poll_id, name) {
            lemma_only_listed_registered(s, front, poll_id, name);
            if !s.has_candidate(poll_id, name) {
                let j = choose|j: int| 0 <= j < front.len() && front[j] == name;
                assert(names[j] == name);
            }
        } else {
            lemma_candidate_key_injective(poll_id, names.last(), poll_id, name);
            assert(names[names.len() - 1] == name);
        }
    }
}

/// Registering a candidate that is already registered succeeds and leaves
/// the ledger unchanged, its poll's candidate count included.
pub proof fn lemma_reregistration_changes_nothing(s: LedgerView, name: Seq<char>, poll_id: u64)
    requires
        s.wf(),
        s.has_candidate(poll_id, name),
    ensures
        registration_outcome(s, name, poll_id) is Ok,
        after_registration(s, name, poll_id) == s,
{
    let ck = candidate_key(poll_id, name);
    lemma_candidate_fields(s, name, poll_id);
    let c = registration_outcome(s, name, poll_id).unwrap();
    assert(s.candidates.insert(ck, c) =~= s.candidates);
    assert(s.with_candidate(c) =~= s);
}

/// `k` votes for a registered candidate whose tally leaves room for them all
/// succeed, and raise its tally by exactly `k`.
pub proof fn lemma_votes_add_up(s: LedgerView, name: Seq<char>, poll_id: u64, k: nat)
    requires
        s.wf(),
        s.has_candidate(poll_id, name),
        s.candidate(poll_id, name).candidate_vote + k <= u64::MAX,
    ensures
        vote_times(s, name, poll_id, k).wf(),
        vote_times(s, name, poll_id, k).has_candidate(poll_id, name),
        vote_times(s, name, poll_id, k).candidate(poll_id, name).candidate_vote == s.candidate(
            poll_id,
            name,
        ).candidate_vote + k,
    decreases k,
{
    if k > 0 {
        lemma_votes_add_up(s, name, poll_id, (k - 1) as nat);
        let t = vote_times(s, name, poll_id, (k - 1) as nat);
        assert(s.has_poll(s.candidate(poll_id, name).poll_id));
        lemma_candidate_fields(s, name, poll_id);
        lemma_candidate_key_injective(poll_id, name, poll_id, name);
        assert(text_fits(name));
        assert(t.has_poll(t.candidate(poll_id, name).poll_id));
        lemma_candidate_fields(t, name, poll_id);
        lemma_vote_keeps_wf(t, name, poll_id);
    }
}

/// A newly registered candidate that then receives `k` votes has exactly
/// `k` votes.
pub proof fn lemma_new_candidate_votes(s: LedgerView, name: Seq<char>, poll_id: u64, k: nat)
    requires
        s.wf(),
        registration_outcome(s, name, poll_id) is Ok,
        !s.has_candidate(poll_id, name),
        k <= u64::MAX,
    ensures
        vote_times(after_registration(s, name, poll_id), name, poll_id, k).candidate(
            poll_id,
            name,
        ).candidate_vote == k,
{
    lemma_registration_keeps_wf(s, name, poll_id);
    let t = after_registration(s, name, poll_id);
    assert(t.has_candidate(poll_id, name));
    assert(t.candidate(poll_id, name).candidate_vote == 0);
    lemma_votes_add_up(t, name, poll_id, k);
}

/// A vote for a candidate that is not registered under a stored poll fails
/// with `CandidateNotFound` and changes nothing.
pub proof fn lemma_vote_for_unknown_fails(s: LedgerView, name: Seq<char>, poll_id: u64)
    requires
        text_fits(name),
        s.has_poll(poll_id),
        !s.has_candidate(poll_id, name),
    ensures
        vote_outcome(s, name, poll_id) == Err::<crate::records::CandidateView, VoteError>(
            VoteError::CandidateNotFound,
        ),
        after_vote(s, name, poll_id) == s,
{
}

/// What the ledger holds under the poll `poll_id`: that poll and the
/// candidates registered under it are the same in `s` and `t`.
pub open spec fn same_under(s: LedgerView, t: LedgerView, poll_id: u64) -> bool {
    &&& t.has_poll(poll_id) == s.has_poll(poll_id)
    &&& s.has_poll(poll_id) ==> t.poll(poll_id) == s.poll(poll_id)
    &&& forall|n: Seq<char>| #[trigger]
        t.has_candidate(poll_id, n) == s.has_candidate(poll_id, n)
    &&& forall|n: Seq<char>| #[trigger]
        s.has_candidate(poll_id, n) ==> t.candidate(poll_id, n) == s.candidate(poll_id, n)
}

/// Registering a candidate or voting under one poll leaves every other poll,
/// and the candidates under it, untouched, whatever their names.
pub proof fn lemma_polls_isolated(s: LedgerView, name: Seq<char>, poll_a: u64, poll_b: u64)
    requires
        poll_a != poll_b,
    ensures
        same_under(s, after_registration(s, name, poll_a), poll_b),
        same_under(s, after_vote(s, name, poll_a), poll_b),
{
    lemma_poll_key_injective(poll_a, poll_b);
    assert forall|n: Seq<char>| #[trigger]
        candidate_key(poll_b, n) != candidate_key(poll_a, name) by {
        lemma_candidate_key_injective(poll_b, n, poll_a, name);
    }
}

} // verus!
