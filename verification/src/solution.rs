//! Worker-reported mining solutions and their validation.
//!
//! A solution is the pair (16-byte equix digest, 8-byte nonce) a worker
//! claims to have found for the current challenge. Validity and difficulty
//! are computed by the hashing library behind trusted wrappers; everything
//! that depends on their results is verified against the named results.

use vstd::prelude::*;

verus! {

/// A candidate solution: a 16-byte equix digest and the 8-byte
/// little-endian nonce it was derived from.
pub struct Solution {
    pub digest: Vec<u8>,
    pub nonce: Vec<u8>,
}

/// The mathematical value of a solution: its two byte strings.
pub ghost struct SolutionV {
    pub digest: Seq<u8>,
    pub nonce: Seq<u8>,
}

impl SolutionV {
    /// Structural well-formedness: the digest is 16 bytes, the nonce 8.
    pub open spec fn wf(self) -> bool {
        self.digest.len() == 16 && self.nonce.len() == 8
    }
}

impl View for Solution {
    type V = SolutionV;

    open spec fn view(&self) -> SolutionV {
        SolutionV { digest: self.digest@, nonce: self.nonce@ }
    }
}

impl Solution {
    /// Structural well-formedness: the digest is 16 bytes, the nonce 8.
    pub open spec fn wf(self) -> bool {
        self@.wf()
    }

    pub fn new(digest: Vec<u8>, nonce: Vec<u8>) -> (r: Solution)
        requires
            digest@.len() == 16,
            nonce@.len() == 8,
        ensures
            r.wf(),
            r.digest@ == digest@,
            r.nonce@ == nonce@,
    {
        Solution { digest, nonce }
    }

    pub fn clone_solution(&self) -> (r: Solution)
        ensures
            r@ == self@,
    {
        let mut digest: Vec<u8> = Vec::new();
        let mut i: usize = 0;
        while i < self.digest.len()
            invariant
                i <= self.digest@.len(),
                digest@ == self.digest@.subrange(0, i as int),
            decreases self.digest@.len() - i,
        {
            digest.push(self.digest[i]);
            proof {
                assert(self.digest@.subrange(0, i + 1 as int)
                    =~= self.digest@.subrange(0, i as int).push(self.digest@[i as int]));
            }
            i += 1;
        }
        let mut nonce: Vec<u8> = Vec::new();
        let mut j: usize = 0;
        while j < self.nonce.len()
            invariant
                j <= self.nonce@.len(),
                nonce@ == self.nonce@.subrange(0, j as int),
            decreases self.nonce@.len() - j,
        {
            nonce.push(self.nonce[j]);
            proof {
                assert(self.nonce@.subrange(0, j + 1 as int)
                    =~= self.nonce@.subrange(0, j as int).push(self.nonce@[j as int]));
            }
            j += 1;
        }
        proof {
            assert(self.digest@.subrange(0, self.digest@.len() as int) =~= self.digest@);
            assert(self.nonce@.subrange(0, self.nonce@.len() as int) =~= self.nonce@);
        }
        Solution { digest, nonce }
    }
}

/// Whether the digest is a valid equihash construction for the given
/// challenge and nonce. Names the result of the hashing library's
/// verification; it depends on the three byte strings alone.
pub uninterp spec fn digest_valid(challenge: Seq<u8>, nonce: Seq<u8>, digest: Seq<u8>) -> bool;

/// The difficulty (leading-zero count of the derived hash) of a solution.
/// Names the result of the hashing library's hash derivation; it depends
/// on digest and nonce alone.
pub uninterp spec fn solution_difficulty(digest: Seq<u8>, nonce: Seq<u8>) -> u32;

/// Relies on drillx::Solution::is_valid: equix verification of the digest
/// against the seed built from challenge and nonce, a function of the
/// three byte strings alone.
#[verifier::external_body]
pub(crate) fn drillx_is_valid(challenge: &Vec<u8>, nonce: &Vec<u8>, digest: &Vec<u8>) -> (r: bool)
    requires
        challenge@.len() == 32,
        nonce@.len() == 8,
        digest@.len() == 16,
    ensures
        r == digest_valid(challenge@, nonce@, digest@),
{
    let mut c = [0u8; 32];
    let mut n = [0u8; 8];
    let mut d = [0u8; 16];
    c.copy_from_slice(challenge);
    n.copy_from_slice(nonce);
    d.copy_from_slice(digest);
    drillx::Solution::new(d, n).is_valid(&c)
}

/// Relies on drillx::Solution::to_hash and drillx::Hash::difficulty: the
/// keccak hash of (sorted digest, nonce) and its leading-zero count, a
/// function of digest and nonce alone.
#[verifier::external_body]
pub(crate) fn drillx_difficulty(digest: &Vec<u8>, nonce: &Vec<u8>) -> (r: u32)
    requires
        digest@.len() == 16,
        nonce@.len() == 8,
    ensures
        r == solution_difficulty(digest@, nonce@),
{
    let mut d = [0u8; 16];
    let mut n = [0u8; 8];
    d.copy_from_slice(digest);
    n.copy_from_slice(nonce);
    drillx::Solution::new(d, n).to_hash().difficulty()
}

} // verus!
