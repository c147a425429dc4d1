//! The state store: every poll and candidate record, each under its derived
//! key, with the invariants that the operations preserve.
use vstd::prelude::*;

use crate::identity::{candidate_key, poll_key, text_fits, Key};
use crate::records::{Candidate, CandidateView, Poll, PollView};
use crate::table::Table;

verus! {

/// The contents of a ledger: the poll records and the candidate records, each
/// by key.
pub struct LedgerView {
    pub polls: Map<Seq<u8>, PollView>,
    pub candidates: Map<Seq<u8>, CandidateView>,
}

/// The keys of the candidates registered under the poll with id `poll_id`.
pub open spec fn registered_under(candidates: Map<Seq<u8>, CandidateView>, poll_id: u64) -> Set<
    Seq<u8>,
> {
    candidates.dom().filter(|k: Seq<u8>| candidates[k].poll_id == poll_id)
}

impl LedgerView {
    /// Whether a poll with id `poll_id` is stored.
    pub open spec fn has_poll(self, poll_id: u64) -> bool {
        self.polls.contains_key(poll_key(poll_id))
    }

    /// The poll with id `poll_id`.
    pub open spec fn poll(self, poll_id: u64) -> PollView {
        self.polls[poll_key(poll_id)]
    }

    /// Whether the candidate `name` is registered under the poll `poll_id`.
    pub open spec fn has_candidate(self, poll_id: u64, name: Seq<char>) -> bool {
        self.candidates.contains_key(candidate_key(poll_id, name))
    }

    /// The candidate `name` under the poll `poll_id`.
    pub open spec fn candidate(self, poll_id: u64, name: Seq<char>) -> CandidateView {
        self.candidates[candidate_key(poll_id, name)]
    }

    /// The ledger with `p` stored under its key.
    pub open spec fn with_poll(self, p: PollView) -> LedgerView {
        LedgerView { polls: self.polls.insert(poll_key(p.poll_id), p), candidates: self.candidates }
    }

    /// The ledger with `c` stored under its key.
    pub open spec fn with_candidate(self, c: CandidateView) -> LedgerView {
        LedgerView {
            polls: self.polls,
            candidates: self.candidates.insert(candidate_key(c.poll_id, c.candidate_name), c),
        }
    }

    /// The invariants of a ledger:
    /// each record lies under the key derived from its own fields, and its
    /// texts fit the bound; every candidate's poll is stored; and a poll's
    /// `candidate_amount` is the number of candidates registered under it.
    pub open spec fn wf(self) -> bool {
        &&& self.polls.dom().finite()
        &&& self.candidates.dom().finite()
        &&& forall|k: Seq<u8>| #[trigger]
            self.polls.contains_key(k) ==> {
                &&& k == poll_key(self.polls[k].poll_id)
                &&& text_fits(self.polls[k].description)
                &&& self.polls[k].candidate_amount == registered_under(
                    self.candidates,
                    self.polls[k].poll_id,
                ).len()
            }
        &&& forall|k: Seq<u8>| #[trigger]
            self.candidates.contains_key(k) ==> {
                &&& k == candidate_key(
                    self.candidates[k].poll_id,
                    self.candidates[k].candidate_name,
                )
                &&& text_fits(self.candidates[k].candidate_name)
                &&& self.has_poll(self.candidates[k].poll_id)
            }
    }
}

/// The store of poll and candidate records.
pub struct Ledger {
    polls: Table<Poll>,
    candidates: Table<Candidate>,
}

impl View for Ledger {
    type V = LedgerView;

    closed spec fn view(&self) -> LedgerView {
        LedgerView { polls: self.polls@, candidates: self.candidates@ }
    }
}

impl Ledger {
    /// The ledger's invariants hold.
    pub open spec fn wf(&self) -> bool {
        &&& self.tables_wf()
        &&& self@.wf()
    }

    /// An empty ledger.
    pub fn new() -> (l: Ledger)
        ensures
            l.wf(),
            l@.polls == Map::<Seq<u8>, PollView>::empty(),
            l@.candidates == Map::<Seq<u8>, CandidateView>::empty(),
    {
        Ledger { polls: Table::new(), candidates: Table::new() }
    }

    /// The poll stored under `key`, if any.
    pub fn get_poll(&self, key: &Key) -> (r: Option<&Poll>)
        requires
            self.wf(),
        ensures
            match r {
                Some(p) => self@.polls.contains_key(key@) && p@ == self@.polls[key@],
                None => !self@.polls.contains_key(key@),
            },
    {
        self.polls.get(key)
    }

    /// The candidate stored under `key`, if any.
    pub fn get_candidate(&self, key: &Key) -> (r: Option<&Candidate>)
        requires
            self.wf(),
        ensures
            match r {
                Some(c) => self@.candidates.contains_key(key@) && c@ == self@.candidates[key@],
                None => !self@.candidates.contains_key(key@),
            },
    {
        self.candidates.get(key)
    }

    /// Stores `p` under `key`; the caller restores the invariants of the view.
    pub(crate) fn put_poll(&mut self, key: Key, p: Poll)
        requires
            old(self).tables_wf(),
        ensures
            final(self).tables_wf(),
            final(self)@ == (LedgerView {
                polls: old(self)@.polls.insert(key@, p@),
                candidates: old(self)@.candidates,
            }),
    {
        self.polls.insert(key, p);
    }

    /// Stores `c` under `key`; the caller restores the invariants of the view.
    pub(crate) fn put_candidate(&mut self, key: Key, c: Candidate)
        requires
            old(self).tables_wf(),
        ensures
            final(self).tables_wf(),
            final(self)@ == (LedgerView {
                polls: old(self)@.polls,
                candidates: old(self)@.candidates.insert(key@, c@),
            }),
    {
        self.candidates.insert(key, c);
    }

    /// The entries of both tables agree with the view.
    pub closed spec fn tables_wf(&self) -> bool {
        &&& self.polls.wf()
        &&& self.candidates.wf()
    }
}

} // verus!
