//! The binary protocol spoken between the coordinator and its workers.
//!
//! Worker-to-coordinator frames are dispatched on their first byte; the
//! coordinator-to-worker assignment frame is a fixed 57-byte layout,
//! little-endian throughout.

use vstd::prelude::*;
use crate::solution::Solution;

verus! {

/// A semantic event decoded from one worker frame, tagged with the
/// identifier of the originating worker.
pub enum ClientMessage {
    Ready(u64),
    Mining(u64),
    BestSolution(u64, Solution),
}

/// The 3-byte payload of the application-level liveness ping.
pub fn ping_payload() -> (r: Vec<u8>)
    ensures
        r@ =~= seq![1u8, 2u8, 3u8],
{
    let mut r: Vec<u8> = Vec::new();
    r.push(1u8);
    r.push(2u8);
    r.push(3u8);
    r
}

/// Decode one binary frame received from worker `who`.
///
/// Tag 0 is a readiness report, tag 1 an informational mining report and
/// tag 2 carries a solution as 16 digest bytes followed by 8 nonce bytes.
/// Anything else, an empty frame, or a solution frame shorter than 25
/// bytes is invalid and yields `None`.
pub fn parse_client_frame(who: u64, data: &Vec<u8>) -> (r: Option<ClientMessage>)
    ensures
        match r {
            Some(m) => data@.len() >= 1 && match m {
                ClientMessage::Ready(w) => w == who && data@[0] == 0,
                ClientMessage::Mining(w) => w == who && data@[0] == 1,
                ClientMessage::BestSolution(w, sol) => {
                    &&& w == who
                    &&& data@[0] == 2
                    &&& data@.len() >= 25
                    &&& sol.wf()
                    &&& sol.digest@ == data@.subrange(1, 17)
                    &&& sol.nonce@ == data@.subrange(17, 25)
                },
            },
            None => {
                ||| data@.len() == 0
                ||| (data@[0] != 0 && data@[0] != 1 && data@[0] != 2)
                ||| (data@[0] == 2 && data@.len() < 25)
            },
        },
{
    if data.len() == 0 {
        return None;
    }
    let tag = data[0];
    if tag == 0 {
        Some(ClientMessage::Ready(who))
    } else if tag == 1 {
        Some(ClientMessage::Mining(who))
    } else if tag == 2 {
        if data.len() < 25 {
            return None;
        }
        let mut digest: Vec<u8> = Vec::new();
        let mut i: usize = 1;
        while i < 17
            invariant
                1 <= i <= 17,
                data@.len() >= 25,
                digest@ == data@.subrange(1, i as int),
            decreases 17 - i,
        {
            digest.push(data[i]);
            proof {
                assert(data@.subrange(1, i + 1) =~= data@.subrange(1, i as int).push(
                    data@[i as int]));
            }
            i += 1;
        }
        let mut nonce: Vec<u8> = Vec::new();
        let mut j: usize = 17;
        while j < 25
            invariant
                17 <= j <= 25,
                data@.len() >= 25,
                nonce@ == data@.subrange(17, j as int),
            decreases 25 - j,
        {
            nonce.push(data[j]);
            proof {
                assert(data@.subrange(17, j + 1) =~= data@.subrange(17, j as int).push(
                    data@[j as int]));
            }
            j += 1;
        }
        Some(ClientMessage::BestSolution(who, Solution::new(digest, nonce)))
    } else {
        None
    }
}

/// The byte layout of an assignment frame: tag 0, the 32-byte challenge,
/// then cutoff, range start and range end as 8 little-endian bytes each.
pub open spec fn assignment_bytes(challenge: Seq<u8>, cutoff: i64, start: u64, end: u64) -> Seq<
    u8,
> {
    seq![0u8] + challenge + vstd::bytes::spec_u64_to_le_bytes(cutoff as u64)
        + vstd::bytes::spec_u64_to_le_bytes(start) + vstd::bytes::spec_u64_to_le_bytes(end)
}

/// Append every byte of `src` to `dst`.
fn push_bytes(dst: &mut Vec<u8>, src: &Vec<u8>)
    ensures
        final(dst)@ == old(dst)@ + src@,
{
    let mut i: usize = 0;
    while i < src.len()
        invariant
            i <= src@.len(),
            dst@ == old(dst)@ + src@.subrange(0, i as int),
        decreases src@.len() - i,
    {
        dst.push(src[i]);
        proof {
            assert(old(dst)@ + src@.subrange(0, i + 1) =~= (old(dst)@ + src@.subrange(
                0,
                i as int,
            )).push(src@[i as int]));
        }
        i += 1;
    }
    proof {
        assert(src@.subrange(0, src@.len() as int) =~= src@);
    }
}

/// Encode an assignment frame for one worker: the shared challenge, the
/// seconds left before the round's cutoff, and the worker's nonce range.
pub fn encode_assignment(challenge: &Vec<u8>, cutoff: i64, start: u64, end: u64) -> (r: Vec<u8>)
    requires
        challenge@.len() == 32,
        cutoff >= 0,
    ensures
        r@ == assignment_bytes(challenge@, cutoff, start, end),
        r@.len() == 57,
{
    let mut r: Vec<u8> = Vec::new();
    r.push(0u8);
    push_bytes(&mut r, challenge);
    let mut cutoff_bytes = vstd::bytes::u64_to_le_bytes(cutoff as u64);
    r.append(&mut cutoff_bytes);
    let mut start_bytes = vstd::bytes::u64_to_le_bytes(start);
    r.append(&mut start_bytes);
    let mut end_bytes = vstd::bytes::u64_to_le_bytes(end);
    r.append(&mut end_bytes);
    proof {
        vstd::bytes::lemma_auto_spec_u64_to_from_le_bytes();
        assert(r@ =~= assignment_bytes(challenge@, cutoff, start, end));
    }
    r
}

} // verus!
