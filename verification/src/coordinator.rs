//! Application of worker events to the shared state.
//!
//! The event consumer is the single writer of the ready set and the best
//! cell: it takes each decoded worker event and applies it to the roster
//! and the round state under one rule per event kind.

use vstd::prelude::*;
use crate::frames::ClientMessage;
use crate::registry::Registry;
use crate::round::RoundState;
use crate::round::qualifies;
use crate::round::step_best;
use crate::solution::solution_difficulty;

verus! {

/// What applying one event decided.
#[derive(Clone, Copy, Debug, PartialEq, Eq, Structural)]
pub enum EventOutcome {
    /// The worker is attached and now awaits an assignment; the driver
    /// is to send it the acknowledgement.
    ReadyAck,
    /// A readiness report from a worker with no live sink; dropped.
    ReadyIgnored,
    /// An informational mining report; logged only.
    MiningNoted,
    /// The solution was admitted as the round's new best.
    SolutionAccepted,
    /// The solution failed validation, the difficulty floor, or the
    /// incumbent; dropped.
    SolutionRejected,
}

/// Apply one decoded worker event to the roster and the round state.
pub fn apply_event(reg: &mut Registry, state: &mut RoundState, msg: ClientMessage) -> (r:
    EventOutcome)
    requires
        old(reg).wf(),
        old(state)@.wf(),
        match msg {
            ClientMessage::BestSolution(_, s) => s@.wf(),
            _ => true,
        },
    ensures
        final(reg).wf(),
        final(state)@.wf(),
        match msg {
            ClientMessage::Ready(addr) => {
                &&& final(state)@ == old(state)@
                &&& final(reg).attached@ == old(reg).attached@
                &&& (forall|y: u64|
                    final(reg).ready@.contains(y) <==> (old(reg).ready@.contains(y) || (y == addr
                        && old(reg).attached@.contains(addr))))
                &&& (r is ReadyAck <==> old(reg).attached@.contains(addr))
                &&& (r is ReadyAck || r is ReadyIgnored)
            },
            ClientMessage::Mining(_) => {
                &&& final(state)@ == old(state)@
                &&& final(reg).attached@ == old(reg).attached@
                &&& final(reg).ready@ == old(reg).ready@
                &&& r is MiningNoted
            },
            ClientMessage::BestSolution(_, sol) => {
                &&& final(reg).attached@ == old(reg).attached@
                &&& final(reg).ready@ == old(reg).ready@
                &&& final(state)@.proof == old(state)@.proof
                &&& final(state)@.nonce_cursor == old(state)@.nonce_cursor
                &&& (r is SolutionAccepted <==> (qualifies(old(state)@.proof.challenge, sol@)
                    && solution_difficulty(sol@.digest, sol@.nonce)
                    > old(state)@.best.difficulty))
                &&& (r is SolutionAccepted || r is SolutionRejected)
                &&& final(state)@.best.difficulty == step_best(
                    old(state)@.proof.challenge,
                    old(state)@.best.difficulty,
                    sol@,
                )
                &&& (r is SolutionAccepted ==> final(state)@.best.solution == Some(sol@))
                &&& (r is SolutionRejected ==> final(state)@.best == old(state)@.best)
            },
        },
{
    match msg {
        ClientMessage::Ready(addr) => {
            if reg.is_attached(addr) {
                reg.mark_ready(addr);
                EventOutcome::ReadyAck
            } else {
                EventOutcome::ReadyIgnored
            }
        },
        ClientMessage::Mining(_addr) => EventOutcome::MiningNoted,
        ClientMessage::BestSolution(_addr, sol) => {
            if state.maybe_update_best(sol) {
                EventOutcome::SolutionAccepted
            } else {
                EventOutcome::SolutionRejected
            }
        },
    }
}

} // verus!
