//! The submission loop as a state machine.
//!
//! The loop alternates chain I/O with decisions: wait for the cutoff,
//! snapshot the best solution, fetch a blockhash, send the signed
//! transaction with a bounded retry budget, and poll for the refreshed
//! proof. The decisions live here as a pure step function from state and
//! observed outcome to next state and next action; the driver performs
//! each action and feeds the outcome back in.

use vstd::prelude::*;

verus! {

/// Where the submission loop stands between two chain interactions.
#[derive(Clone, Copy, Debug, PartialEq, Eq, Structural)]
pub enum SubmitState {
    /// No submission under way; the next tick decides.
    Idle,
    /// A blockhash for the transaction has been requested.
    AwaitingBlockhash,
    /// A signed transaction is in flight; `attempts` sends so far.
    AwaitingSend { attempts: u8 },
    /// The send confirmed; polling until the chain shows a fresh proof.
    AwaitingProof,
}

/// What the driver observed since the last step.
#[derive(Clone, Copy, Debug, PartialEq, Eq, Structural)]
pub enum SubmitEvent {
    /// A periodic check: seconds until the deadline, and whether a best
    /// solution is in hand.
    Tick { cutoff: i64, has_best: bool },
    /// Whether the blockhash fetch succeeded.
    BlockhashResult { ok: bool },
    /// Whether send-and-confirm succeeded.
    SendResult { ok: bool },
    /// Whether the proof fetch succeeded, and whether the fetched proof
    /// differs from the current one.
    ProofResult { fetched: bool, changed: bool },
}

/// What the driver is to do next.
#[derive(Clone, Copy, Debug, PartialEq, Eq, Structural)]
pub enum SubmitAction {
    /// Sleep for the given number of seconds, then tick again.
    SleepUntilCutoff { secs: i64 },
    /// Tick again without waiting.
    Recheck,
    /// Fetch a recent blockhash.
    GetBlockhash,
    /// Sign if needed and send the transaction; this is the `attempt`-th
    /// send of this submission.
    SendTransaction { attempt: u8 },
    /// The blockhash fetch failed: back off one second, then tick again.
    RetryAfterBlockhashFailure,
    /// The retry budget is exhausted: clear the best cell and the nonce
    /// cursor, keep the proof, and start over.
    DiscardRound,
    /// Fetch the proof account.
    FetchProof,
    /// The proof is unchanged or the fetch failed: back off half a
    /// second, then fetch again.
    RetryFetchProof,
    /// The chain shows a fresh proof: install it and reset the round.
    CommitNewProof,
    /// The event does not apply to the current state; do nothing.
    Ignore,
}

/// The transition relation of the submission loop. A positive cutoff
/// defers everything; an expired cutoff with a best solution starts a
/// submission; a send is retried at most 3 times; a confirmed send is
/// followed by proof polling until the chain advances.
pub open spec fn spec_submission_step(s: SubmitState, e: SubmitEvent) -> (SubmitState,
    SubmitAction) {
    match (s, e) {
        (SubmitState::Idle, SubmitEvent::Tick { cutoff, has_best }) => {
            if cutoff > 0 {
                (SubmitState::Idle, SubmitAction::SleepUntilCutoff { secs: cutoff })
            } else if has_best {
                (SubmitState::AwaitingBlockhash, SubmitAction::GetBlockhash)
            } else {
                (SubmitState::Idle, SubmitAction::Recheck)
            }
        },
        (SubmitState::AwaitingBlockhash, SubmitEvent::BlockhashResult { ok }) => {
            if ok {
                (SubmitState::AwaitingSend { attempts: 1 }, SubmitAction::SendTransaction {
                    attempt: 1,
                })
            } else {
                (SubmitState::Idle, SubmitAction::RetryAfterBlockhashFailure)
            }
        },
        (SubmitState::AwaitingSend { attempts }, SubmitEvent::SendResult { ok }) => {
            if ok {
                (SubmitState::AwaitingProof, SubmitAction::FetchProof)
            } else if attempts < 3 {
                (
                    SubmitState::AwaitingSend { attempts: (attempts + 1) as u8 },
                    SubmitAction::SendTransaction { attempt: (attempts + 1) as u8 },
                )
            } else {
                (SubmitState::Idle, SubmitAction::DiscardRound)
            }
        },
        (SubmitState::AwaitingProof, SubmitEvent::ProofResult { fetched, changed }) => {
            if fetched && changed {
                (SubmitState::Idle, SubmitAction::CommitNewProof)
            } else {
                (SubmitState::AwaitingProof, SubmitAction::RetryFetchProof)
            }
        },
        _ => (s, SubmitAction::Ignore),
    }
}

/// One step of the submission loop.
pub fn submission_step(s: SubmitState, e: SubmitEvent) -> (r: (SubmitState, SubmitAction))
    ensures
        r == spec_submission_step(s, e),
{
    match (s, e) {
        (SubmitState::Idle, SubmitEvent::Tick { cutoff, has_best }) => {
            if cutoff > 0 {
                (SubmitState::Idle, SubmitAction::SleepUntilCutoff { secs: cutoff })
            } else if has_best {
                (SubmitState::AwaitingBlockhash, SubmitAction::GetBlockhash)
            } else {
                (SubmitState::Idle, SubmitAction::Recheck)
            }
        },
        (SubmitState::AwaitingBlockhash, SubmitEvent::BlockhashResult { ok }) => {
            if ok {
                (SubmitState::AwaitingSend { attempts: 1 }, SubmitAction::SendTransaction {
                    attempt: 1,
                })
            } else {
                (SubmitState::Idle, SubmitAction::RetryAfterBlockhashFailure)
            }
        },
        (SubmitState::AwaitingSend { attempts }, SubmitEvent::SendResult { ok }) => {
            if ok {
                (SubmitState::AwaitingProof, SubmitAction::FetchProof)
            } else if attempts < 3 {
                (
                    SubmitState::AwaitingSend { attempts: attempts + 1 },
                    SubmitAction::SendTransaction { attempt: attempts + 1 },
                )
            } else {
                (SubmitState::Idle, SubmitAction::DiscardRound)
            }
        },
        (SubmitState::AwaitingProof, SubmitEvent::ProofResult { fetched, changed }) => {
            if fetched && changed {
                (SubmitState::Idle, SubmitAction::CommitNewProof)
            } else {
                (SubmitState::AwaitingProof, SubmitAction::RetryFetchProof)
            }
        },
        _ => (s, SubmitAction::Ignore),
    }
}

/// A run of the submission loop: `states` has one more entry than
/// `events`, and each step follows the transition relation.
pub open spec fn valid_trace(
    states: Seq<SubmitState>,
    events: Seq<SubmitEvent>,
    actions: Seq<SubmitAction>,
) -> bool {
    &&& states.len() == events.len() + 1
    &&& actions.len() == events.len()
    &&& forall|k: int|
        0 <= k < events.len() ==> (states[k + 1], #[trigger] actions[k]) == spec_submission_step(
            states[k],
            events[k],
        )
}

/// While no send outcome arrives, a loop that has a transaction in
/// flight stays exactly there and emits no further send.
proof fn lemma_awaiting_send_persists(
    states: Seq<SubmitState>,
    events: Seq<SubmitEvent>,
    actions: Seq<SubmitAction>,
    i: int,
    j: int,
)
    requires
        valid_trace(states, events, actions),
        0 <= i <= j < states.len(),
        states[i] is AwaitingSend,
        forall|k: int| i <= k < j ==> !((#[trigger] events[k]) is SendResult),
    ensures
        states[j] is AwaitingSend,
    decreases j - i,
{
    if j > i {
        lemma_awaiting_send_persists(states, events, actions, i, j - 1);
        assert((states[j], actions[j - 1]) == spec_submission_step(states[j - 1], events[j - 1]));
    }
}

/// Law: at most one submission is in flight. Between any two send
/// actions of one run there is a completed outcome of the earlier send,
/// so no two send-and-confirm calls overlap in time.
pub proof fn lemma_single_inflight_submission(
    states: Seq<SubmitState>,
    events: Seq<SubmitEvent>,
    actions: Seq<SubmitAction>,
    i: int,
    j: int,
)
    requires
        valid_trace(states, events, actions),
        0 <= i < j < actions.len(),
        actions[i] is SendTransaction,
        actions[j] is SendTransaction,
    ensures
        exists|k: int| i < k <= j && (#[trigger] events[k]) is SendResult,
{
    if !(exists|k: int| i < k <= j && (#[trigger] events[k]) is SendResult) {
        assert((states[i + 1], actions[i]) == spec_submission_step(states[i], events[i]));
        assert(states[i + 1] is AwaitingSend);
        lemma_awaiting_send_persists(states, events, actions, i + 1, j);
        assert((states[j + 1], actions[j]) == spec_submission_step(states[j], events[j]));
        assert(events[j] is SendResult);
        assert(false);
    }
}

} // verus!
