//! The connection roster: which workers are attached, and which of them
//! are ready for an assignment.
//!
//! The transport sinks themselves live outside the library; the registry
//! tracks their identities and keeps the coherence invariant that every
//! ready worker is attached. Eviction decisions (a failed ping, a closed
//! receive loop) are applied here from the send outcomes the transport
//! reports.

use vstd::prelude::*;

verus! {

/// No worker identifier occurs twice.
pub open spec fn distinct_ids(s: Seq<u64>) -> bool {
    forall|p: int, q: int| 0 <= p < q < s.len() ==> s[p] != s[q]
}

/// Whether `v` holds `x`.
fn vec_contains(v: &Vec<u64>, x: u64) -> (r: bool)
    ensures
        r == v@.contains(x),
{
    let mut i: usize = 0;
    while i < v.len()
        invariant
            i <= v@.len(),
            forall|k: int| 0 <= k < i ==> v@[k] != x,
        decreases v@.len() - i,
    {
        if v[i] == x {
            return true;
        }
        i += 1;
    }
    false
}

/// A copy of `v` without every occurrence of `x`.
fn remove_value(v: &Vec<u64>, x: u64) -> (r: Vec<u64>)
    requires
        distinct_ids(v@),
    ensures
        distinct_ids(r@),
        forall|y: u64| r@.contains(y) <==> (v@.contains(y) && y != x),
{
    let mut r: Vec<u64> = Vec::new();
    let mut i: usize = 0;
    while i < v.len()
        invariant
            i <= v@.len(),
            distinct_ids(v@),
            distinct_ids(r@),
            forall|y: u64|
                r@.contains(y) <==> (v@.subrange(0, i as int).contains(y) && y != x),
        decreases v@.len() - i,
    {
        let ghost r0 = r@;
        let ghost pre = v@.subrange(0, i as int);
        if v[i] != x {
            proof {
                if r0.contains(v@[i as int]) {
                    assert(pre.contains(v@[i as int]));
                    let k = choose|k: int| 0 <= k < pre.len() && pre[k] == v@[i as int];
                    assert(v@[k] == v@[i as int]);
                    assert(false);
                }
            }
            r.push(v[i]);
            proof {
                assert forall|p: int, q: int| 0 <= p < q < r@.len() implies r@[p] != r@[q] by {
                    if q < r0.len() {
                        assert(r@[p] == r0[p] && r@[q] == r0[q]);
                    } else {
                        assert(r@[q] == v@[i as int] && r@[p] == r0[p]);
                        if r0[p] == v@[i as int] {
                            assert(r0.contains(v@[i as int]));
                        }
                    }
                }
            }
        }
        proof {
            assert(v@.subrange(0, i + 1) =~= pre.push(v@[i as int]));
            assert forall|y: u64|
                r@.contains(y) <==> (v@.subrange(0, i + 1).contains(y) && y != x) by {
                if r@.contains(y) {
                    let k = choose|k: int| 0 <= k < r@.len() && r@[k] == y;
                    if k < r0.len() {
                        assert(r0[k] == y);
                        assert(r0.contains(y));
                        let m = choose|m: int| 0 <= m < pre.len() && pre[m] == y;
                        assert(v@.subrange(0, i + 1)[m] == y);
                    } else {
                        assert(y == v@[i as int]);
                        assert(v@.subrange(0, i + 1)[i as int] == y);
                    }
                }
                if v@.subrange(0, i + 1).contains(y) && y != x {
                    let k = choose|k: int|
                        0 <= k < v@.subrange(0, i + 1).len() && #[trigger] v@.subrange(
                            0,
                            i + 1,
                        )[k] == y;
                    if k < i {
                        assert(pre[k] == y);
                        assert(pre.contains(y));
                        assert(r0.contains(y));
                        let m = choose|m: int| 0 <= m < r0.len() && r0[m] == y;
                        assert(r@[m] == y);
                    } else {
                        assert(y == v@[i as int]);
                        assert(r@[r@.len() - 1] == y);
                    }
                }
            }
        }
        i += 1;
    }
    proof {
        assert(v@.subrange(0, v@.len() as int) =~= v@);
    }
    r
}

/// The roster of live worker connections and the subset awaiting an
/// assignment.
pub struct Registry {
    pub attached: Vec<u64>,
    pub ready: Vec<u64>,
}

impl Registry {
    /// The roster invariant: identifiers are unique in each list, and
    /// every ready worker is attached.
    pub open spec fn wf(self) -> bool {
        &&& distinct_ids(self.attached@)
        &&& distinct_ids(self.ready@)
        &&& forall|y: u64| self.ready@.contains(y) ==> self.attached@.contains(y)
    }

    pub fn new() -> (r: Registry)
        ensures
            r.wf(),
            r.attached@.len() == 0,
            r.ready@.len() == 0,
    {
        Registry { attached: Vec::new(), ready: Vec::new() }
    }

    /// Whether `id` has a live sink.
    pub fn is_attached(&self, id: u64) -> (r: bool)
        ensures
            r == self.attached@.contains(id),
    {
        vec_contains(&self.attached, id)
    }

    /// Attach a newly connected worker. A second attach for the same
    /// identifier is rejected and the roster is left as it was.
    pub fn attach(&mut self, id: u64) -> (added: bool)
        requires
            old(self).wf(),
        ensures
            final(self).wf(),
            added == !old(self).attached@.contains(id),
            added ==> final(self).attached@ == old(self).attached@.push(id),
            !added ==> final(self).attached@ == old(self).attached@,
            final(self).ready@ == old(self).ready@,
    {
        if vec_contains(&self.attached, id) {
            false
        } else {
            let ghost a0 = self.attached@;
            self.attached.push(id);
            proof {
                assert forall|p: int, q: int|
                    0 <= p < q < self.attached@.len() implies self.attached@[p]
                    != self.attached@[q] by {
                    if q < a0.len() {
                        assert(self.attached@[p] == a0[p] && self.attached@[q] == a0[q]);
                    } else {
                        assert(self.attached@[q] == id && self.attached@[p] == a0[p]);
                        if a0[p] == id {
                            assert(a0.contains(id));
                        }
                    }
                }
                assert forall|y: u64|
                    self.ready@.contains(y) implies self.attached@.contains(y) by {
                    assert(a0.contains(y));
                    let k = choose|k: int| 0 <= k < a0.len() && a0[k] == y;
                    assert(self.attached@[k] == y);
                }
            }
            true
        }
    }

    /// Record that an attached worker reported itself ready. A report
    /// from an unattached worker is dropped.
    pub fn mark_ready(&mut self, id: u64) -> (added: bool)
        requires
            old(self).wf(),
        ensures
            final(self).wf(),
            final(self).attached@ == old(self).attached@,
            added == (old(self).attached@.contains(id) && !old(self).ready@.contains(id)),
            added ==> final(self).ready@ == old(self).ready@.push(id),
            !added ==> final(self).ready@ == old(self).ready@,
            forall|y: u64|
                final(self).ready@.contains(y) <==> (old(self).ready@.contains(y) || (y == id
                    && old(self).attached@.contains(id))),
    {
        if !vec_contains(&self.attached, id) {
            return false;
        }
        if vec_contains(&self.ready, id) {
            return false;
        }
        let ghost r0 = self.ready@;
        self.ready.push(id);
        proof {
            assert forall|p: int, q: int|
                0 <= p < q < self.ready@.len() implies self.ready@[p] != self.ready@[q] by {
                if q < r0.len() {
                    assert(self.ready@[p] == r0[p] && self.ready@[q] == r0[q]);
                } else {
                    assert(self.ready@[q] == id && self.ready@[p] == r0[p]);
                    if r0[p] == id {
                        assert(r0.contains(id));
                    }
                }
            }
            assert(self.ready@[self.ready@.len() - 1] == id);
            assert forall|y: u64|
                self.ready@.contains(y) implies (r0.contains(y) || y == id) by {
                let k = choose|k: int| 0 <= k < self.ready@.len() && self.ready@[k] == y;
                if k < r0.len() {
                    assert(r0[k] == y);
                }
            }
            assert forall|y: u64|
                self.ready@.contains(y) implies self.attached@.contains(y) by {}
            assert forall|y: u64| r0.contains(y) implies self.ready@.contains(y) by {
                let k = choose|k: int| 0 <= k < r0.len() && r0[k] == y;
                assert(self.ready@[k] == y);
            }
        }
        true
    }

    /// Remove a worker's ready-set membership (after it was handed an
    /// assignment).
    pub fn remove_ready(&mut self, id: u64)
        requires
            old(self).wf(),
        ensures
            final(self).wf(),
            final(self).attached@ == old(self).attached@,
            forall|y: u64|
                final(self).ready@.contains(y) <==> (old(self).ready@.contains(y) && y != id),
    {
        self.ready = remove_value(&self.ready, id);
    }

    /// Drop a worker entirely: its sink and any ready-set membership.
    pub fn evict(&mut self, id: u64)
        requires
            old(self).wf(),
        ensures
            final(self).wf(),
            forall|y: u64|
                final(self).attached@.contains(y) <==> (old(self).attached@.contains(y) && y
                    != id),
            forall|y: u64|
                final(self).ready@.contains(y) <==> (old(self).ready@.contains(y) && y != id),
    {
        self.attached = remove_value(&self.attached, id);
        self.ready = remove_value(&self.ready, id);
    }

    /// A copy of the ready set, in insertion order, for the dispatcher.
    pub fn ready_snapshot(&self) -> (r: Vec<u64>)
        ensures
            r@ == self.ready@,
    {
        let mut r: Vec<u64> = Vec::new();
        let mut i: usize = 0;
        while i < self.ready.len()
            invariant
                i <= self.ready@.len(),
                r@ == self.ready@.subrange(0, i as int),
            decreases self.ready@.len() - i,
        {
            r.push(self.ready[i]);
            proof {
                assert(self.ready@.subrange(0, i + 1) =~= self.ready@.subrange(0, i as int).push(
                    self.ready@[i as int]));
            }
            i += 1;
        }
        proof {
            assert(self.ready@.subrange(0, self.ready@.len() as int) =~= self.ready@);
        }
        r
    }

    /// Apply the outcome of one liveness sweep: every worker whose ping
    /// send failed is evicted, so the roster holds exactly the workers
    /// whose last send succeeded.
    pub fn evict_failed(&mut self, failed: &Vec<u64>)
        requires
            old(self).wf(),
        ensures
            final(self).wf(),
            forall|y: u64|
                final(self).attached@.contains(y) <==> (old(self).attached@.contains(y)
                    && !failed@.contains(y)),
            forall|y: u64|
                final(self).ready@.contains(y) <==> (old(self).ready@.contains(y)
                    && !failed@.contains(y)),
    {
        let mut i: usize = 0;
        while i < failed.len()
            invariant
                i <= failed@.len(),
                self.wf(),
                forall|y: u64|
                    self.attached@.contains(y) <==> (old(self).attached@.contains(y)
                        && !failed@.subrange(0, i as int).contains(y)),
                forall|y: u64|
                    self.ready@.contains(y) <==> (old(self).ready@.contains(y) && !failed@.subrange(
                        0,
                        i as int,
                    ).contains(y)),
            decreases failed@.len() - i,
        {
            let ghost pre = failed@.subrange(0, i as int);
            self.evict(failed[i]);
            proof {
                assert(failed@.subrange(0, i + 1) =~= pre.push(failed@[i as int]));
                assert forall|y: u64|
                    failed@.subrange(0, i + 1).contains(y) <==> (pre.contains(y) || y == failed@[
                        i as int
                    ]) by {
                    if failed@.subrange(0, i + 1).contains(y) {
                        let k = choose|k: int|
                            0 <= k < failed@.subrange(0, i + 1).len() && #[trigger] failed@.subrange(
                                0,
                                i + 1,
                            )[k] == y;
                        if k < i {
                            assert(pre[k] == y);
                        }
                    }
                    if pre.contains(y) {
                        let k = choose|k: int| 0 <= k < pre.len() && pre[k] == y;
                        assert(failed@.subrange(0, i + 1)[k] == y);
                    }
                    if y == failed@[i as int] {
                        assert(failed@.subrange(0, i + 1)[i as int] == y);
                    }
                }
            }
            i += 1;
        }
        proof {
            assert(failed@.subrange(0, failed@.len() as int) =~= failed@);
        }
    }
}

/// The membership relation one liveness sweep establishes between a
/// roster before and after it, for a given list of failed sends.
pub open spec fn swept(pre: Registry, post: Registry, failed: Seq<u64>) -> bool {
    &&& forall|y: u64|
        #[trigger] post.attached@.contains(y) <==> (pre.attached@.contains(y) && !failed.contains(
            y,
        ))
    &&& forall|y: u64|
        #[trigger] post.ready@.contains(y) <==> (pre.ready@.contains(y) && !failed.contains(y))
}

/// Law: every ready worker has a live sink, in any roster that satisfies
/// the invariant every operation preserves.
pub proof fn lemma_roster_coherence(r: Registry)
    requires
        r.wf(),
    ensures
        forall|y: u64| r.ready@.contains(y) ==> r.attached@.contains(y),
{
}

/// Law: eviction is idempotent. Sweeping the same failures twice leaves
/// the roster exactly where the first sweep put it, so a sweep racing a
/// repeated report of the same dead sinks converges.
pub proof fn lemma_eviction_idempotent(r0: Registry, r1: Registry, r2: Registry, failed: Seq<u64>)
    requires
        swept(r0, r1, failed),
        swept(r1, r2, failed),
    ensures
        forall|y: u64| r2.attached@.contains(y) <==> r1.attached@.contains(y),
        forall|y: u64| r2.ready@.contains(y) <==> r1.ready@.contains(y),
{
    assert forall|y: u64| r2.attached@.contains(y) <==> r1.attached@.contains(y) by {
        assert(r1.attached@.contains(y) <==> (r0.attached@.contains(y) && !failed.contains(y)));
        assert(r2.attached@.contains(y) <==> (r1.attached@.contains(y) && !failed.contains(y)));
    }
    assert forall|y: u64| r2.ready@.contains(y) <==> r1.ready@.contains(y) by {
        assert(r1.ready@.contains(y) <==> (r0.ready@.contains(y) && !failed.contains(y)));
        assert(r2.ready@.contains(y) <==> (r1.ready@.contains(y) && !failed.contains(y)));
    }
}

} // verus!
