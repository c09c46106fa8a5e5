use ore_hq_server::coordinator::{apply_event, EventOutcome};
use ore_hq_server::frames::ClientMessage;
use ore_hq_server::registry::Registry;
use ore_hq_server::round::{proof_eq, should_dispatch, Proof, RoundState};
use ore_hq_server::solution::Solution;
use ore_hq_server::submit::{submission_step, SubmitAction, SubmitEvent, SubmitState};
use ore_hq_server::CHUNK;

/// Scan nonces from `start` until a drillx hash whose difficulty
/// satisfies `pred` is found; returns (digest, nonce bytes, difficulty).
fn find_solution(
    challenge: &[u8; 32],
    start: u64,
    pred: impl Fn(u32) -> bool,
) -> (Vec<u8>, Vec<u8>, u32) {
    let mut nonce: u64 = start;
    loop {
        let nb = nonce.to_le_bytes();
        if let Ok(h) = drillx::hash(challenge, &nb) {
            let d = h.difficulty();
            if pred(d) {
                return (h.d.to_vec(), nb.to_vec(), d);
            }
        }
        nonce += 1;
    }
}

fn test_proof(challenge_byte: u8) -> Proof {
    Proof::new(vec![challenge_byte; 32], 500, 0)
}

#[test]
fn should_dispatch_cases() {
    assert_eq!(should_dispatch(5, false), (true, 5));
    assert_eq!(should_dispatch(5, true), (true, 5));
    assert_eq!(should_dispatch(0, true), (false, 0));
    assert_eq!(should_dispatch(-3, true), (false, 0));
    assert_eq!(should_dispatch(0, false), (true, 0));
}

#[test]
fn s1_single_worker_full_round() {
    let challenge = [7u8; 32];
    let mut reg = Registry::new();
    let mut state = RoundState::new(Proof::new(challenge.to_vec(), 100, 0));

    // worker connects and reports ready
    assert!(reg.attach(1));
    let outcome = apply_event(&mut reg, &mut state, ClientMessage::Ready(1));
    assert_eq!(outcome, EventOutcome::ReadyAck);

    // dispatch with a 5 second cutoff: tag 0, the challenge, [0, CHUNK)
    let ready = reg.ready_snapshot();
    let frames = state.dispatch_assignments(&ready, 5);
    assert_eq!(frames.len(), 1);
    assert_eq!(frames[0].0, 1);
    let frame = &frames[0].1;
    assert_eq!(frame.len(), 57);
    assert_eq!(frame[0], 0u8);
    assert_eq!(&frame[1..33], &challenge[..]);
    assert_eq!(&frame[33..41], &5u64.to_le_bytes());
    assert_eq!(&frame[41..49], &0u64.to_le_bytes());
    assert_eq!(&frame[49..57], &CHUNK.to_le_bytes());
    reg.remove_ready(1);

    // the worker returns a valid solution above the difficulty floor
    let (digest, nonce, diff) = find_solution(&challenge, 0, |d| d > 3);
    let sol = Solution::new(digest, nonce);
    let outcome = apply_event(&mut reg, &mut state, ClientMessage::BestSolution(1, sol));
    assert_eq!(outcome, EventOutcome::SolutionAccepted);
    assert_eq!(state.best.difficulty, diff);

    // at cutoff expiry the submission is attempted exactly once
    let mut sends: u32 = 0;
    let (s, a) = submission_step(
        SubmitState::Idle,
        SubmitEvent::Tick { cutoff: 0, has_best: state.snapshot_best().is_some() },
    );
    assert_eq!(a, SubmitAction::GetBlockhash);
    let (s, a) = submission_step(s, SubmitEvent::BlockhashResult { ok: true });
    if matches!(a, SubmitAction::SendTransaction { .. }) {
        sends += 1;
    }
    let (s, a) = submission_step(s, SubmitEvent::SendResult { ok: true });
    assert_eq!(a, SubmitAction::FetchProof);
    let (s, a) = submission_step(s, SubmitEvent::ProofResult { fetched: true, changed: true });
    assert_eq!(a, SubmitAction::CommitNewProof);
    assert_eq!(s, SubmitState::Idle);
    assert_eq!(sends, 1);

    // the refreshed proof rearms the round atomically
    let new_challenge = [9u8; 32];
    state.replace_proof_and_reset(Proof::new(new_challenge.to_vec(), 150, 60));
    assert!(state.best.solution.is_none());
    assert_eq!(state.best.difficulty, 0);
    assert_eq!(state.nonce_cursor, 0);

    // the next round's first dispatch uses nonce 0 and the new challenge
    let outcome = apply_event(&mut reg, &mut state, ClientMessage::Ready(1));
    assert_eq!(outcome, EventOutcome::ReadyAck);
    let frames = state.dispatch_assignments(&reg.ready_snapshot(), 5);
    assert_eq!(frames.len(), 1);
    assert_eq!(&frames[0].1[1..33], &new_challenge[..]);
    assert_eq!(&frames[0].1[41..49], &0u64.to_le_bytes());
}

#[test]
fn s2_invalid_solution_is_dropped() {
    let challenge = [3u8; 32];
    let mut reg = Registry::new();
    let mut state = RoundState::new(Proof::new(challenge.to_vec(), 100, 0));
    reg.attach(4);

    // a digest that was never derived from this challenge fails validation
    let sol = Solution::new(vec![0xabu8; 16], vec![1u8; 8]);
    let outcome = apply_event(&mut reg, &mut state, ClientMessage::BestSolution(4, sol));
    assert_eq!(outcome, EventOutcome::SolutionRejected);
    assert!(state.best.solution.is_none());
    assert_eq!(state.best.difficulty, 0);
}

#[test]
fn s3_three_workers_get_consecutive_ranges() {
    let challenge = [1u8; 32];
    let mut reg = Registry::new();
    let mut state = RoundState::new(Proof::new(challenge.to_vec(), 100, 0));
    for id in [10, 11, 12] {
        reg.attach(id);
        assert_eq!(apply_event(&mut reg, &mut state, ClientMessage::Ready(id)), EventOutcome::ReadyAck);
    }

    let frames = state.dispatch_assignments(&reg.ready_snapshot(), 5);
    assert_eq!(frames.len(), 3);
    for (k, (id, frame)) in frames.iter().enumerate() {
        assert_eq!(*id, 10 + k as u64);
        let start = k as u64 * CHUNK;
        assert_eq!(&frame[41..49], &start.to_le_bytes());
        assert_eq!(&frame[49..57], &(start + CHUNK).to_le_bytes());
    }
    for id in [10, 11, 12] {
        reg.remove_ready(id);
    }

    // a fourth readiness report after them gets the next chunk
    reg.attach(13);
    apply_event(&mut reg, &mut state, ClientMessage::Ready(13));
    let frames = state.dispatch_assignments(&reg.ready_snapshot(), 5);
    assert_eq!(frames.len(), 1);
    assert_eq!(&frames[0].1[41..49], &(3 * CHUNK).to_le_bytes());
    assert_eq!(&frames[0].1[49..57], &(4 * CHUNK).to_le_bytes());
}

#[test]
fn s4_retry_exhaustion_resets_round_keeps_proof() {
    let starting_proof = test_proof(5);
    let mut state = RoundState::new(test_proof(5));
    state.dispatch_assignments(&vec![1], 5);

    let (s, a) = submission_step(
        SubmitState::Idle,
        SubmitEvent::Tick { cutoff: -1, has_best: true },
    );
    assert_eq!(a, SubmitAction::GetBlockhash);
    let (s, a) = submission_step(s, SubmitEvent::BlockhashResult { ok: true });
    assert_eq!(a, SubmitAction::SendTransaction { attempt: 1 });
    let (s, a) = submission_step(s, SubmitEvent::SendResult { ok: false });
    assert_eq!(a, SubmitAction::SendTransaction { attempt: 2 });
    let (s, a) = submission_step(s, SubmitEvent::SendResult { ok: false });
    assert_eq!(a, SubmitAction::SendTransaction { attempt: 3 });
    let (s, a) = submission_step(s, SubmitEvent::SendResult { ok: false });
    assert_eq!(a, SubmitAction::DiscardRound);
    assert_eq!(s, SubmitState::Idle);

    // the driver applies the discard: empty best, cursor 0, proof unchanged
    state.discard_round();
    assert!(state.best.solution.is_none());
    assert_eq!(state.best.difficulty, 0);
    assert_eq!(state.nonce_cursor, 0);
    assert!(proof_eq(&state.proof, &starting_proof));
}

#[test]
fn s5_dead_worker_is_swept_others_unaffected() {
    let mut reg = Registry::new();
    let mut state = RoundState::new(test_proof(2));
    reg.attach(1);
    reg.attach(2);
    apply_event(&mut reg, &mut state, ClientMessage::Ready(1));
    apply_event(&mut reg, &mut state, ClientMessage::Ready(2));
    let frames = state.dispatch_assignments(&reg.ready_snapshot(), 5);
    assert_eq!(frames.len(), 2);
    reg.remove_ready(1);
    reg.remove_ready(2);

    // worker 1 drops; the ping sweep evicts it
    reg.evict_failed(&vec![1]);
    assert!(!reg.is_attached(1));
    assert!(reg.is_attached(2));
    // its range is abandoned: the cursor is not rewound
    assert_eq!(state.nonce_cursor, 2 * CHUNK);
}

#[test]
fn s6_difficulty_floor_is_strict() {
    let challenge = [11u8; 32];
    let mut reg = Registry::new();
    let mut state = RoundState::new(Proof::new(challenge.to_vec(), 100, 0));
    reg.attach(1);

    // a solution of difficulty exactly 3 is rejected: the floor is strict
    let (digest3, nonce3, _) = find_solution(&challenge, 0, |d| d == 3);
    let sol3 = Solution::new(digest3.clone(), nonce3.clone());
    let outcome = apply_event(&mut reg, &mut state, ClientMessage::BestSolution(1, sol3));
    assert_eq!(outcome, EventOutcome::SolutionRejected);
    assert_eq!(state.best.difficulty, 0);

    // a subsequent solution above the floor is accepted
    let (digest4, nonce4, diff4) = find_solution(&challenge, 1_000_000, |d| d >= 4);
    let sol4 = Solution::new(digest4, nonce4);
    let outcome = apply_event(&mut reg, &mut state, ClientMessage::BestSolution(1, sol4));
    assert_eq!(outcome, EventOutcome::SolutionAccepted);
    assert_eq!(state.best.difficulty, diff4);

    // the recorded difficulty is monotone: the weaker one cannot displace it
    let sol3_again = Solution::new(digest3, nonce3);
    let outcome = apply_event(&mut reg, &mut state, ClientMessage::BestSolution(1, sol3_again));
    assert_eq!(outcome, EventOutcome::SolutionRejected);
    assert_eq!(state.best.difficulty, diff4);
}

#[test]
fn reported_difficulty_matches_hashing_library() {
    let challenge = [21u8; 32];
    let mut state = RoundState::new(Proof::new(challenge.to_vec(), 100, 0));
    let (digest, nonce, diff) = find_solution(&challenge, 0, |d| d > 3);
    // the difficulty the round records is the one drillx computes
    let expected = drillx::Solution::new(
        digest.clone().try_into().unwrap(),
        nonce.clone().try_into().unwrap(),
    )
    .to_hash()
    .difficulty();
    assert_eq!(diff, expected);
    let mut reg = Registry::new();
    reg.attach(1);
    apply_event(&mut reg, &mut state, ClientMessage::BestSolution(1, Solution::new(digest, nonce)));
    assert_eq!(state.best.difficulty, expected);
}

#[test]
fn blockhash_failure_backs_off_and_rechecks() {
    let (s, a) = submission_step(
        SubmitState::Idle,
        SubmitEvent::Tick { cutoff: 0, has_best: true },
    );
    assert_eq!(s, SubmitState::AwaitingBlockhash);
    assert_eq!(a, SubmitAction::GetBlockhash);
    let (s, a) = submission_step(s, SubmitEvent::BlockhashResult { ok: false });
    assert_eq!(s, SubmitState::Idle);
    assert_eq!(a, SubmitAction::RetryAfterBlockhashFailure);
}

#[test]
fn unchanged_proof_keeps_polling() {
    let s = SubmitState::AwaitingProof;
    let (s, a) = submission_step(s, SubmitEvent::ProofResult { fetched: false, changed: false });
    assert_eq!(s, SubmitState::AwaitingProof);
    assert_eq!(a, SubmitAction::RetryFetchProof);
    let (s, a) = submission_step(s, SubmitEvent::ProofResult { fetched: true, changed: false });
    assert_eq!(s, SubmitState::AwaitingProof);
    assert_eq!(a, SubmitAction::RetryFetchProof);
    let (s, a) = submission_step(s, SubmitEvent::ProofResult { fetched: true, changed: true });
    assert_eq!(s, SubmitState::Idle);
    assert_eq!(a, SubmitAction::CommitNewProof);
}

#[test]
fn positive_cutoff_defers_submission() {
    let (s, a) = submission_step(
        SubmitState::Idle,
        SubmitEvent::Tick { cutoff: 17, has_best: true },
    );
    assert_eq!(s, SubmitState::Idle);
    assert_eq!(a, SubmitAction::SleepUntilCutoff { secs: 17 });
    // an out-of-place event is ignored
    let (s, a) = submission_step(s, SubmitEvent::SendResult { ok: true });
    assert_eq!(s, SubmitState::Idle);
    assert_eq!(a, SubmitAction::Ignore);
}

#[test]
fn proof_eq_compares_all_fields() {
    let a = Proof::new(vec![1u8; 32], 10, 20);
    let b = Proof::new(vec![1u8; 32], 10, 20);
    assert!(proof_eq(&a, &b));
    let c = Proof::new(vec![2u8; 32], 10, 20);
    assert!(!proof_eq(&a, &c));
    let d = Proof::new(vec![1u8; 32], 11, 20);
    assert!(!proof_eq(&a, &d));
    let e = Proof::new(vec![1u8; 32], 10, 21);
    assert!(!proof_eq(&a, &e));
}

#[test]
fn empty_ready_set_dispatches_nothing() {
    let mut state = RoundState::new(test_proof(8));
    let frames = state.dispatch_assignments(&Vec::new(), 5);
    assert!(frames.is_empty());
    assert_eq!(state.nonce_cursor, 0);
}

#[test]
fn ready_report_from_unattached_worker_is_dropped() {
    let mut reg = Registry::new();
    let mut state = RoundState::new(test_proof(9));
    let outcome = apply_event(&mut reg, &mut state, ClientMessage::Ready(42));
    assert_eq!(outcome, EventOutcome::ReadyIgnored);
    assert!(reg.ready_snapshot().is_empty());
}
