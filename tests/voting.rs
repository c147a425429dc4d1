use ws_votes::{
    derive_candidate_key, derive_poll_key, initialize_candidate, initialize_voting, vote,
    Candidate, InitializeCandidate, InitializePoll, Ledger, Poll, Signer, Vote, VoteError,
};

const SIGNER: Signer = Signer { key: [7u8; 32] };

fn open_poll(ledger: &mut Ledger, poll_id: u64) -> Poll {
    initialize_voting(
        &InitializePoll { signer: SIGNER },
        ledger,
        poll_id,
        100,
        200,
        "Election".to_string(),
    )
    .unwrap()
}

fn register(ledger: &mut Ledger, name: &str, poll_id: u64) -> Result<Candidate, VoteError> {
    initialize_candidate(
        &InitializeCandidate { signer: SIGNER },
        ledger,
        name.to_string(),
        poll_id,
    )
}

fn cast(ledger: &mut Ledger, name: &str, poll_id: u64) -> Result<Candidate, VoteError> {
    vote(&Vote { signer: SIGNER }, ledger, name.to_string(), poll_id)
}

fn poll_of(ledger: &Ledger, poll_id: u64) -> Option<Poll> {
    ledger.get_poll(&derive_poll_key(poll_id)).cloned()
}

fn candidate_of(ledger: &Ledger, name: &str, poll_id: u64) -> Option<Candidate> {
    let key = derive_candidate_key(poll_id, name).unwrap();
    ledger.get_candidate(&key).cloned()
}

#[test]
fn create_poll_returns_its_fields() {
    let mut ledger = Ledger::new();
    let poll = open_poll(&mut ledger, 1);
    let expected = Poll {
        poll_id: 1,
        description: "Election".to_string(),
        poll_start: 100,
        poll_end: 200,
        candidate_amount: 0,
    };
    assert_eq!(poll, expected);
    assert_eq!(poll_of(&ledger, 1), Some(expected));
}

#[test]
fn register_candidate_counts_it() {
    let mut ledger = Ledger::new();
    open_poll(&mut ledger, 1);
    let alice = register(&mut ledger, "Alice", 1).unwrap();
    assert_eq!(
        alice,
        Candidate { candidate_name: "Alice".to_string(), poll_id: 1, candidate_vote: 0 }
    );
    assert_eq!(poll_of(&ledger, 1).unwrap().candidate_amount, 1);
}

#[test]
fn votes_are_tallied_per_candidate() {
    let mut ledger = Ledger::new();
    open_poll(&mut ledger, 1);
    register(&mut ledger, "Alice", 1).unwrap();
    register(&mut ledger, "Bob", 1).unwrap();
    assert_eq!(cast(&mut ledger, "Alice", 1).unwrap().candidate_vote, 1);
    assert_eq!(cast(&mut ledger, "Alice", 1).unwrap().candidate_vote, 2);
    assert_eq!(cast(&mut ledger, "Bob", 1).unwrap().candidate_vote, 1);
    assert_eq!(candidate_of(&ledger, "Alice", 1).unwrap().candidate_vote, 2);
    assert_eq!(candidate_of(&ledger, "Bob", 1).unwrap().candidate_vote, 1);
    assert_eq!(poll_of(&ledger, 1).unwrap().candidate_amount, 2);
}

#[test]
fn vote_for_unregistered_candidate_fails() {
    let mut ledger = Ledger::new();
    open_poll(&mut ledger, 1);
    register(&mut ledger, "Alice", 1).unwrap();
    assert_eq!(cast(&mut ledger, "Carol", 1), Err(VoteError::CandidateNotFound));
    assert_eq!(poll_of(&ledger, 1).unwrap().candidate_amount, 1);
    assert_eq!(candidate_of(&ledger, "Carol", 1), None);
    assert_eq!(candidate_of(&ledger, "Alice", 1).unwrap().candidate_vote, 0);
}

#[test]
fn register_under_missing_poll_fails() {
    let mut ledger = Ledger::new();
    open_poll(&mut ledger, 1);
    assert_eq!(register(&mut ledger, "Alice", 2), Err(VoteError::PollNotFound));
    assert_eq!(poll_of(&ledger, 2), None);
    assert_eq!(candidate_of(&ledger, "Alice", 2), None);
}

#[test]
fn vote_under_missing_poll_fails() {
    let mut ledger = Ledger::new();
    assert_eq!(cast(&mut ledger, "Alice", 3), Err(VoteError::PollNotFound));
}

#[test]
fn poll_key_is_deterministic() {
    assert_eq!(derive_poll_key(42), derive_poll_key(42));
    assert_eq!(
        derive_candidate_key(42, "Alice").unwrap(),
        derive_candidate_key(42, "Alice").unwrap()
    );
}

#[test]
fn poll_key_layout() {
    let key = derive_poll_key(0x0102);
    assert_eq!(key.as_bytes(), &[0x50u8, 0x02, 0x01, 0, 0, 0, 0, 0, 0][..]);
}

#[test]
fn candidate_key_layout() {
    let key = derive_candidate_key(1, "AB").unwrap();
    assert_eq!(key.as_bytes(), &[0x43u8, 1, 0, 0, 0, 0, 0, 0, 0, b'A', b'B'][..]);
}

#[test]
fn distinct_inputs_give_distinct_keys() {
    assert_ne!(derive_poll_key(1), derive_poll_key(2));
    assert_ne!(derive_poll_key(0), derive_poll_key(u64::MAX));
    assert_ne!(
        derive_candidate_key(1, "AB").unwrap(),
        derive_candidate_key(12, "B").unwrap()
    );
    assert_ne!(
        derive_candidate_key(1, "Alice").unwrap(),
        derive_candidate_key(2, "Alice").unwrap()
    );
    assert_ne!(
        derive_candidate_key(1, "Alice").unwrap(),
        derive_candidate_key(1, "Alicf").unwrap()
    );
}

#[test]
fn name_length_bound() {
    let exact = "a".repeat(32);
    assert!(derive_candidate_key(1, &exact).is_ok());
    let long = "a".repeat(33);
    assert_eq!(derive_candidate_key(1, &long), Err(VoteError::IdentityTooLong));
    // sixteen two-byte characters fill the bound, seventeen exceed it
    assert!(derive_candidate_key(1, &"é".repeat(16)).is_ok());
    assert_eq!(derive_candidate_key(1, &"é".repeat(17)), Err(VoteError::IdentityTooLong));
}

#[test]
fn long_name_is_rejected_before_poll_lookup() {
    let mut ledger = Ledger::new();
    let long = "a".repeat(33);
    assert_eq!(register(&mut ledger, &long, 1), Err(VoteError::IdentityTooLong));
    open_poll(&mut ledger, 1);
    assert_eq!(register(&mut ledger, &long, 1), Err(VoteError::IdentityTooLong));
    assert_eq!(cast(&mut ledger, &long, 1), Err(VoteError::IdentityTooLong));
    assert_eq!(poll_of(&ledger, 1).unwrap().candidate_amount, 0);
}

#[test]
fn long_description_is_rejected() {
    let mut ledger = Ledger::new();
    let r = initialize_voting(
        &InitializePoll { signer: SIGNER },
        &mut ledger,
        5,
        1,
        2,
        "d".repeat(33),
    );
    assert_eq!(r, Err(VoteError::DescriptionTooLong));
    assert_eq!(poll_of(&ledger, 5), None);
    let r = initialize_voting(
        &InitializePoll { signer: SIGNER },
        &mut ledger,
        5,
        1,
        2,
        "d".repeat(32),
    );
    assert_eq!(r.unwrap().description, "d".repeat(32));
}

#[test]
fn count_is_independent_of_order() {
    let names = ["Alice", "Bob", "Carol"];
    let orders = [[0usize, 1, 2], [2, 0, 1], [1, 2, 0]];
    for order in orders.iter() {
        let mut ledger = Ledger::new();
        open_poll(&mut ledger, 9);
        for &i in order.iter() {
            register(&mut ledger, names[i], 9).unwrap();
        }
        assert_eq!(poll_of(&ledger, 9).unwrap().candidate_amount, 3);
    }
}

#[test]
fn reregistration_keeps_count_and_votes() {
    let mut ledger = Ledger::new();
    open_poll(&mut ledger, 1);
    register(&mut ledger, "Alice", 1).unwrap();
    cast(&mut ledger, "Alice", 1).unwrap();
    let again = register(&mut ledger, "Alice", 1).unwrap();
    assert_eq!(again.candidate_vote, 1);
    assert_eq!(poll_of(&ledger, 1).unwrap().candidate_amount, 1);
    assert_eq!(candidate_of(&ledger, "Alice", 1).unwrap().candidate_vote, 1);
}

#[test]
fn k_votes_give_tally_k() {
    let mut ledger = Ledger::new();
    open_poll(&mut ledger, 4);
    register(&mut ledger, "Dave", 4).unwrap();
    for _ in 0..25 {
        cast(&mut ledger, "Dave", 4).unwrap();
    }
    assert_eq!(candidate_of(&ledger, "Dave", 4).unwrap().candidate_vote, 25);
}

#[test]
fn polls_are_isolated() {
    let mut ledger = Ledger::new();
    open_poll(&mut ledger, 1);
    open_poll(&mut ledger, 2);
    register(&mut ledger, "Alice", 1).unwrap();
    register(&mut ledger, "Alice", 2).unwrap();
    cast(&mut ledger, "Alice", 1).unwrap();
    cast(&mut ledger, "Alice", 1).unwrap();
    register(&mut ledger, "Bob", 1).unwrap();
    assert_eq!(candidate_of(&ledger, "Alice", 1).unwrap().candidate_vote, 2);
    assert_eq!(candidate_of(&ledger, "Alice", 2).unwrap().candidate_vote, 0);
    assert_eq!(poll_of(&ledger, 1).unwrap().candidate_amount, 2);
    assert_eq!(poll_of(&ledger, 2).unwrap().candidate_amount, 1);
    assert_eq!(candidate_of(&ledger, "Bob", 2), None);
}

#[test]
fn reinitialize_overwrites_fields_and_keeps_count() {
    let mut ledger = Ledger::new();
    open_poll(&mut ledger, 1);
    register(&mut ledger, "Alice", 1).unwrap();
    let poll = initialize_voting(
        &InitializePoll { signer: SIGNER },
        &mut ledger,
        1,
        300,
        400,
        "Runoff".to_string(),
    )
    .unwrap();
    let expected = Poll {
        poll_id: 1,
        description: "Runoff".to_string(),
        poll_start: 300,
        poll_end: 400,
        candidate_amount: 1,
    };
    assert_eq!(poll, expected);
    assert_eq!(poll_of(&ledger, 1), Some(expected));
}
