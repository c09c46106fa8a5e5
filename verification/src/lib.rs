//! Round coordinator for a distributed proof-of-work mining pool.
//!
//! The library holds the verified core of the coordinator: the binary frame
//! codec spoken with remote workers, the connection roster, the round state
//! (proof snapshot, best solution so far, nonce cursor) with its transaction
//! methods, and the submission state machine. Network transport and the
//! blockchain RPC live outside the library and drive it with plain values.

pub mod coordinator;
pub mod frames;
pub mod registry;
pub mod round;
pub mod solution;
pub mod submit;

use vstd::prelude::*;

verus! {

/// Size of the nonce search range handed to one worker per assignment:
/// the most hashes a single worker can do in one round.
pub const CHUNK: u64 = 2_000_000;

} // verus!
