//! Round state and its transactions.
//!
//! A round runs from one successful on-chain submission to the next. Its
//! shared state is the current proof snapshot, the best solution admitted
//! so far, and the nonce cursor from which worker search ranges are
//! carved. The state exposes only the transactions the coordinator needs:
//! admitting a candidate solution, allocating a range, and resetting for
//! the next round.

use vstd::prelude::*;
use crate::solution::Solution;
use crate::solution::SolutionV;
use crate::solution::digest_valid;
use crate::solution::solution_difficulty;
use crate::solution::drillx_is_valid;
use crate::solution::drillx_difficulty;
use crate::frames::assignment_bytes;
use crate::frames::encode_assignment;
use crate::CHUNK;

verus! {

/// The on-chain proof fields the coordinator reads: the 32-byte challenge
/// every worker hashes against, the claimed balance, and the timestamp of
/// the last accepted hash (from which the chain gateway derives the
/// round's cutoff).
pub struct Proof {
    pub challenge: Vec<u8>,
    pub balance: u64,
    pub last_hash_at: i64,
}

/// The mathematical value of a proof snapshot.
pub ghost struct ProofV {
    pub challenge: Seq<u8>,
    pub balance: u64,
    pub last_hash_at: i64,
}

impl View for Proof {
    type V = ProofV;

    open spec fn view(&self) -> ProofV {
        ProofV {
            challenge: self.challenge@,
            balance: self.balance,
            last_hash_at: self.last_hash_at,
        }
    }
}

impl Proof {
    /// A proof snapshot carries a 32-byte challenge.
    pub open spec fn wf(self) -> bool {
        self.challenge@.len() == 32
    }

    pub fn new(challenge: Vec<u8>, balance: u64, last_hash_at: i64) -> (r: Proof)
        requires
            challenge@.len() == 32,
        ensures
            r.wf(),
            r@ == (ProofV { challenge: challenge@, balance, last_hash_at }),
    {
        Proof { challenge, balance, last_hash_at }
    }

    pub fn clone_proof(&self) -> (r: Proof)
        ensures
            r@ == self@,
    {
        let mut challenge: Vec<u8> = Vec::new();
        let mut i: usize = 0;
        while i < self.challenge.len()
            invariant
                i <= self.challenge@.len(),
                challenge@ == self.challenge@.subrange(0, i as int),
            decreases self.challenge@.len() - i,
        {
            challenge.push(self.challenge[i]);
            proof {
                assert(self.challenge@.subrange(0, i + 1) =~= self.challenge@.subrange(
                    0,
                    i as int,
                ).push(self.challenge@[i as int]));
            }
            i += 1;
        }
        proof {
            assert(self.challenge@.subrange(0, self.challenge@.len() as int) =~= self.challenge@);
        }
        Proof { challenge, balance: self.balance, last_hash_at: self.last_hash_at }
    }
}

/// Whether two proof snapshots hold the same values. The submission loop
/// polls the chain until the fetched proof differs from the current one.
pub fn proof_eq(a: &Proof, b: &Proof) -> (r: bool)
    requires
        a.wf(),
        b.wf(),
    ensures
        r == (a@ == b@),
{
    if a.balance != b.balance || a.last_hash_at != b.last_hash_at {
        return false;
    }
    let mut i: usize = 0;
    while i < 32
        invariant
            i <= 32,
            a.wf(),
            b.wf(),
            a.balance == b.balance,
            a.last_hash_at == b.last_hash_at,
            forall|k: int| 0 <= k < i ==> a.challenge@[k] == b.challenge@[k],
        decreases 32 - i,
    {
        if a.challenge[i] != b.challenge[i] {
            return false;
        }
        i += 1;
    }
    proof {
        assert(a.challenge@ =~= b.challenge@);
    }
    true
}

/// The best solution admitted so far in the current round, with its
/// difficulty; empty (difficulty 0) at boot and after every reset.
pub struct BestHash {
    pub solution: Option<Solution>,
    pub difficulty: u32,
}

/// The mathematical value of the best-so-far cell.
pub ghost struct BestHashV {
    pub solution: Option<SolutionV>,
    pub difficulty: u32,
}

impl View for BestHash {
    type V = BestHashV;

    open spec fn view(&self) -> BestHashV {
        BestHashV {
            solution: match self.solution {
                Some(s) => Some(s@),
                None => None,
            },
            difficulty: self.difficulty,
        }
    }
}

/// Whether a candidate clears the admission rule of the round: it is
/// well-formed, validates against the round's challenge, and its
/// difficulty exceeds the fixed floor of 3.
pub open spec fn qualifies(challenge: Seq<u8>, s: SolutionV) -> bool {
    s.wf() && digest_valid(challenge, s.nonce, s.digest) && solution_difficulty(s.digest, s.nonce)
        > 3
}

/// The difficulty recorded after one candidate is offered to a round
/// whose best difficulty is `b`: a qualifying candidate replaces the
/// incumbent only if strictly better.
pub open spec fn step_best(challenge: Seq<u8>, b: u32, s: SolutionV) -> u32 {
    if qualifies(challenge, s) && solution_difficulty(s.digest, s.nonce) > b {
        solution_difficulty(s.digest, s.nonce)
    } else {
        b
    }
}

/// The difficulty recorded after a whole sequence of candidates is
/// offered in order, starting from best difficulty `b`.
pub open spec fn fold_best(challenge: Seq<u8>, b: u32, sols: Seq<SolutionV>) -> u32
    decreases sols.len(),
{
    if sols.len() == 0 {
        b
    } else {
        fold_best(challenge, step_best(challenge, b, sols[0]), sols.skip(1))
    }
}

/// The greatest difficulty among the qualifying candidates of a
/// sequence, or 0 if none qualifies.
pub open spec fn max_qualifying(challenge: Seq<u8>, sols: Seq<SolutionV>) -> u32
    decreases sols.len(),
{
    if sols.len() == 0 {
        0
    } else {
        let rest = max_qualifying(challenge, sols.skip(1));
        let cur: u32 = if qualifies(challenge, sols[0]) {
            solution_difficulty(sols[0].digest, sols[0].nonce)
        } else {
            0
        };
        if cur > rest {
            cur
        } else {
            rest
        }
    }
}

/// Law: within a round the recorded difficulty is non-decreasing, and
/// after any sequence of candidates it equals the greater of where it
/// started and the maximum qualifying difficulty received.
pub proof fn lemma_monotone_best(challenge: Seq<u8>, b: u32, sols: Seq<SolutionV>)
    ensures
        fold_best(challenge, b, sols) == if max_qualifying(challenge, sols) > b {
            max_qualifying(challenge, sols)
        } else {
            b
        },
        fold_best(challenge, b, sols) >= b,
    decreases sols.len(),
{
    if sols.len() > 0 {
        lemma_monotone_best(challenge, step_best(challenge, b, sols[0]), sols.skip(1));
    }
}

/// Law: a round that starts empty records exactly the maximum qualifying
/// difficulty of the candidates it received.
pub proof fn lemma_round_best_is_max(challenge: Seq<u8>, sols: Seq<SolutionV>)
    ensures
        fold_best(challenge, 0, sols) == max_qualifying(challenge, sols),
{
    lemma_monotone_best(challenge, 0, sols);
}

/// The shared state of one round.
pub struct RoundState {
    pub proof: Proof,
    pub best: BestHash,
    pub nonce_cursor: u64,
}

/// The mathematical value of the round state.
pub ghost struct RoundStateV {
    pub proof: ProofV,
    pub best: BestHashV,
    pub nonce_cursor: u64,
}

impl View for RoundState {
    type V = RoundStateV;

    open spec fn view(&self) -> RoundStateV {
        RoundStateV { proof: self.proof@, best: self.best@, nonce_cursor: self.nonce_cursor }
    }
}

impl RoundStateV {
    /// The invariant of the round state: the challenge is 32 bytes, and
    /// the best cell either is empty with difficulty 0 or holds a
    /// solution validated against the current challenge whose recorded
    /// difficulty is its own and clears the floor.
    pub open spec fn wf(self) -> bool {
        &&& self.proof.challenge.len() == 32
        &&& match self.best.solution {
            Some(s) => {
                &&& s.wf()
                &&& digest_valid(self.proof.challenge, s.nonce, s.digest)
                &&& self.best.difficulty == solution_difficulty(s.digest, s.nonce)
                &&& self.best.difficulty > 3
            },
            None => self.best.difficulty == 0,
        }
    }
}

impl RoundState {
    /// A fresh round around the given proof: empty best, cursor at 0.
    pub fn new(proof: Proof) -> (r: RoundState)
        requires
            proof.wf(),
        ensures
            r@.wf(),
            r@.proof == proof@,
            r@.best.solution is None,
            r@.best.difficulty == 0,
            r@.nonce_cursor == 0,
    {
        RoundState { proof, best: BestHash { solution: None, difficulty: 0 }, nonce_cursor: 0 }
    }

    /// Offer a candidate solution to the round. It is admitted exactly
    /// when it validates against the current challenge, its difficulty
    /// clears the floor of 3, and it strictly beats the incumbent.
    pub fn maybe_update_best(&mut self, sol: Solution) -> (accepted: bool)
        requires
            old(self)@.wf(),
            sol@.wf(),
        ensures
            final(self)@.wf(),
            final(self)@.proof == old(self)@.proof,
            final(self)@.nonce_cursor == old(self)@.nonce_cursor,
            accepted == (qualifies(old(self)@.proof.challenge, sol@) && solution_difficulty(
                sol@.digest,
                sol@.nonce,
            ) > old(self)@.best.difficulty),
            final(self)@.best.difficulty == step_best(
                old(self)@.proof.challenge,
                old(self)@.best.difficulty,
                sol@,
            ),
            accepted ==> final(self)@.best.solution == Some(sol@),
            !accepted ==> final(self)@.best == old(self)@.best,
            final(self)@.best.difficulty >= old(self)@.best.difficulty,
    {
        let valid = drillx_is_valid(&self.proof.challenge, &sol.nonce, &sol.digest);
        if valid {
            let diff = drillx_difficulty(&sol.digest, &sol.nonce);
            if diff > 3 && diff > self.best.difficulty {
                self.best.difficulty = diff;
                self.best.solution = Some(sol);
                return true;
            }
        }
        false
    }

    /// Carve the next nonce search range off the shared cursor.
    pub fn allocate_range(&mut self) -> (r: (u64, u64))
        requires
            old(self)@.wf(),
            old(self)@.nonce_cursor + CHUNK <= u64::MAX,
        ensures
            final(self)@.wf(),
            r.0 == old(self)@.nonce_cursor,
            r.1 == r.0 + CHUNK,
            final(self)@.proof == old(self)@.proof,
            final(self)@.best == old(self)@.best,
            final(self)@.nonce_cursor == r.1,
    {
        let start = self.nonce_cursor;
        self.nonce_cursor = self.nonce_cursor + CHUNK;
        (start, self.nonce_cursor)
    }

    /// After a confirmed submission: install the refreshed proof and
    /// reset the best cell and the nonce cursor in the same transaction,
    /// so no dispatch can see the new challenge with stale state.
    pub fn replace_proof_and_reset(&mut self, new_proof: Proof)
        requires
            new_proof.wf(),
        ensures
            final(self)@.wf(),
            final(self)@.proof == new_proof@,
            final(self)@.best.solution is None,
            final(self)@.best.difficulty == 0,
            final(self)@.nonce_cursor == 0,
    {
        self.proof = new_proof;
        self.best = BestHash { solution: None, difficulty: 0 };
        self.nonce_cursor = 0;
    }

    /// After an exhausted submission attempt: keep the proof but clear
    /// the best cell and the nonce cursor for a fresh try.
    pub fn discard_round(&mut self)
        requires
            old(self)@.wf(),
        ensures
            final(self)@.wf(),
            final(self)@.proof == old(self)@.proof,
            final(self)@.best.solution is None,
            final(self)@.best.difficulty == 0,
            final(self)@.nonce_cursor == 0,
    {
        self.best = BestHash { solution: None, difficulty: 0 };
        self.nonce_cursor = 0;
    }

    /// A copy of the current best solution, for the submission loop.
    pub fn snapshot_best(&self) -> (r: Option<Solution>)
        ensures
            match r {
                Some(s) => self@.best.solution == Some(s@),
                None => self@.best.solution is None,
            },
    {
        match &self.best.solution {
            Some(s) => Some(s.clone_solution()),
            None => None,
        }
    }

    /// A copy of the current proof snapshot.
    pub fn snapshot_proof(&self) -> (r: Proof)
        ensures
            r@ == self@.proof,
    {
        self.proof.clone_proof()
    }

    /// Assign disjoint nonce ranges to every ready worker and encode the
    /// assignment frame each one is to receive. The cursor advances by
    /// one chunk per worker; worker `k` gets the `k`-th chunk.
    pub fn dispatch_assignments(&mut self, clients: &Vec<u64>, cutoff: i64) -> (frames: Vec<
        (u64, Vec<u8>),
    >)
        requires
            old(self)@.wf(),
            cutoff >= 0,
            old(self)@.nonce_cursor + clients@.len() * CHUNK <= u64::MAX,
        ensures
            final(self)@.wf(),
            final(self)@.proof == old(self)@.proof,
            final(self)@.best == old(self)@.best,
            final(self)@.nonce_cursor == old(self)@.nonce_cursor + clients@.len() * CHUNK,
            frames@.len() == clients@.len(),
            forall|k: int|
                0 <= k < clients@.len() ==> (#[trigger] frames@[k]).0 == clients@[k],
            forall|k: int|
                0 <= k < clients@.len() ==> (#[trigger] frames@[k]).1@ == assignment_bytes(
                    old(self)@.proof.challenge,
                    cutoff,
                    (old(self)@.nonce_cursor + k * CHUNK) as u64,
                    (old(self)@.nonce_cursor + (k + 1) * CHUNK) as u64,
                ),
    {
        let mut frames: Vec<(u64, Vec<u8>)> = Vec::new();
        let mut i: usize = 0;
        while i < clients.len()
            invariant
                i <= clients@.len(),
                self@.wf(),
                cutoff >= 0,
                self@.proof == old(self)@.proof,
                self@.best == old(self)@.best,
                old(self)@.nonce_cursor + clients@.len() * CHUNK <= u64::MAX,
                self@.nonce_cursor == old(self)@.nonce_cursor + i * CHUNK,
                frames@.len() == i,
                forall|k: int| 0 <= k < i ==> (#[trigger] frames@[k]).0 == clients@[k],
                forall|k: int|
                    0 <= k < i ==> (#[trigger] frames@[k]).1@ == assignment_bytes(
                        old(self)@.proof.challenge,
                        cutoff,
                        (old(self)@.nonce_cursor + k * CHUNK) as u64,
                        (old(self)@.nonce_cursor + (k + 1) * CHUNK) as u64,
                    ),
            decreases clients@.len() - i,
        {
            proof {
                assert(i * CHUNK + CHUNK <= clients@.len() * CHUNK) by (nonlinear_arith)
                    requires
                        i + 1 <= clients@.len(),
                ;
            }
            let (start, end) = self.allocate_range();
            let frame = encode_assignment(&self.proof.challenge, cutoff, start, end);
            frames.push((clients[i], frame));
            proof {
                assert((i + 1) * CHUNK == i * CHUNK + CHUNK) by (nonlinear_arith);
            }
            i += 1;
        }
        frames
    }
}

/// Whether a dispatch round should go out, and with what cutoff: a
/// positive cutoff dispatches as is; an expired cutoff with a best
/// solution in hand leaves the round to the submission loop; an expired
/// cutoff with nothing in hand dispatches with cutoff 0 so workers
/// return their best immediately.
pub fn should_dispatch(cutoff: i64, has_best: bool) -> (r: (bool, i64))
    ensures
        cutoff > 0 ==> r == (true, cutoff),
        (cutoff <= 0 && has_best) ==> r == (false, 0i64),
        (cutoff <= 0 && !has_best) ==> r == (true, 0i64),
{
    if cutoff > 0 {
        (true, cutoff)
    } else if has_best {
        (false, 0)
    } else {
        (true, 0)
    }
}

/// Law: the nonce ranges carved from one round's cursor are pairwise
/// disjoint and strictly increasing: the range of the `i`-th allocation
/// ends no later than the `j`-th begins, for any `i < j`, as long as all
/// `n` allocations fit in the cursor's width.
pub proof fn lemma_nonce_disjoint(c0: u64, n: int, i: int, j: int)
    requires
        0 <= i < j < n,
        c0 + n * CHUNK <= u64::MAX,
    ensures
        c0 + i * CHUNK < c0 + j * CHUNK,
        c0 + i * CHUNK + CHUNK <= c0 + j * CHUNK,
{
    assert(i * CHUNK + CHUNK <= j * CHUNK) by (nonlinear_arith)
        requires
            i + 1 <= j,
    ;
}

} // verus!
