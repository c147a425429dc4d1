//! A small voting ledger: polls, candidates registered under a poll, and
//! per-candidate vote tallies, with every record stored under a key derived
//! from its identifying fields.

pub mod error;
pub mod identity;
pub mod laws;
pub mod ledger;
pub mod program;
pub mod records;
pub mod table;
pub mod transitions;

pub use error::VoteError;
pub use identity::{derive_candidate_key, derive_poll_key, Key, MAX_TEXT_LEN};
pub use ledger::Ledger;
pub use program::{
    initialize_candidate, initialize_voting, vote, InitializeCandidate, InitializePoll, Signer,
    Vote,
};
pub use records::{Candidate, Poll};
