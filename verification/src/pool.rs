//! Bounded, keyed pool of reusable upstream connections.
//!
//! The pool counts permits: a permit is held for as long as a connection is
//! checked out, and an idle connection parked in the pool keeps its slot,
//! so the total of checked-out and idle connections never exceeds
//! `pool_size`.  Entries are keyed by endpoint identifier with at most one
//! idle entry per key.  The sockets themselves live with the caller; the
//! pool tracks them by opaque connection identifiers.

use vstd::prelude::*;

verus! {

/// An idle upstream connection parked in the pool.
#[derive(Clone, Copy, PartialEq, Eq, Structural, Debug)]
pub struct PoolEntry {
    /// Endpoint the connection goes to.
    pub endpoint: u64,
    /// Opaque identifier of the connection held by the caller.
    pub conn: u64,
    /// When the connection was last checked in or out.
    pub last_used_ms: u64,
}

/// The index of the idle entry for `endpoint`, if one is parked.
pub open spec fn key_of_idle(s: Seq<PoolEntry>, endpoint: u64) -> Option<int> {
    if exists|i: int| 0 <= i < s.len() && s[i].endpoint == endpoint {
        Some(choose|i: int| 0 <= i < s.len() && s[i].endpoint == endpoint)
    } else {
        None::<int>
    }
}

/// Bounded connection pool.
pub struct ConnectionPool {
    /// Global concurrency ceiling: permits for checked-out plus idle
    /// connections.
    pub pool_size: usize,
    /// Connections currently checked out to relay tasks.
    pub checked_out: usize,
    /// Idle connections, at most one per endpoint.
    pub idle: Vec<PoolEntry>,
}

impl ConnectionPool {
    /// Structural soundness: the concurrency ceiling is respected and idle
    /// entries have unique endpoints.
    pub open spec fn wf(&self) -> bool {
        &&& self.pool_size >= 1
        &&& self.checked_out + self.idle@.len() <= self.pool_size
        &&& forall|i: int, j: int|
            0 <= i < j < self.idle@.len() ==> self.idle@[i].endpoint != self.idle@[j].endpoint
    }

    /// An empty pool with the given permit ceiling.
    pub fn new(pool_size: usize) -> (r: ConnectionPool)
        requires
            pool_size >= 1,
        ensures
            r.wf(),
            r.pool_size == pool_size,
            r.checked_out == 0,
            r.idle@.len() == 0,
    {
        ConnectionPool { pool_size, checked_out: 0, idle: Vec::new() }
    }

    /// Whether an idle entry for `endpoint` exists.
    pub open spec fn spec_has_idle(&self, endpoint: u64) -> bool {
        exists|i: int| 0 <= i < self.idle@.len() && self.idle@[i].endpoint == endpoint
    }

    /// All idle entries last used at or after `cutoff_ms`.
    pub open spec fn spec_idle_fresh(&self, cutoff_ms: u64) -> bool {
        forall|i: int| 0 <= i < self.idle@.len() ==>
            (#[trigger] self.idle@[i]).last_used_ms >= cutoff_ms
    }

    /// Non-blocking fast path: check out the idle connection for `endpoint`
    /// if one is parked.  The checkout takes the entry's permit with it, so
    /// the pool's ceiling is never exceeded.
    pub fn acquire(&mut self, endpoint: u64, now_ms: u64) -> (r: Option<u64>)
        requires
            old(self).wf(),
        ensures
            final(self).wf(),
            final(self).pool_size == old(self).pool_size,
            r is Some <==> old(self).spec_has_idle(endpoint),
            r matches Some(conn) ==> {
                &&& final(self).checked_out == old(self).checked_out + 1
                &&& exists|i: int|
                    0 <= i < old(self).idle@.len()
                        && old(self).idle@[i].endpoint == endpoint
                        && old(self).idle@[i].conn == conn
                        && final(self).idle@ == old(self).idle@.remove(i)
            },
            r is None ==> *final(self) == *old(self),
            final(self).checked_out <= final(self).pool_size,
    {
        let n = self.idle.len();
        let mut idx: usize = 0;
        while idx < n
            invariant
                *self == *old(self),
                old(self).wf(),
                n == self.idle@.len(),
                idx <= n,
                forall|i: int| 0 <= i < idx ==> self.idle@[i].endpoint != endpoint,
            decreases n - idx,
        {
            if self.idle[idx].endpoint == endpoint {
                let entry = self.idle.remove(idx);
                self.checked_out = self.checked_out + 1;
                return Some(entry.conn);
            }
            idx = idx + 1;
        }
        None
    }

    /// Take a permit for dialing a new upstream connection when the pool
    /// had no idle entry.  Fails fast when the ceiling is reached, so the
    /// total of checked-out and idle connections never exceeds `pool_size`.
    pub fn try_connect_permit(&mut self) -> (r: bool)
        requires
            old(self).wf(),
        ensures
            final(self).wf(),
            final(self).pool_size == old(self).pool_size,
            final(self).idle@ == old(self).idle@,
            r == (old(self).checked_out + old(self).idle@.len() < old(self).pool_size),
            r ==> final(self).checked_out == old(self).checked_out + 1,
            !r ==> final(self).checked_out == old(self).checked_out,
            final(self).checked_out <= final(self).pool_size,
    {
        if self.checked_out < self.pool_size - self.idle.len() {
            self.checked_out = self.checked_out + 1;
            true
        } else {
            false
        }
    }

    /// Return a checked-out connection.  A healthy connection is parked
    /// for its endpoint (replacing any entry already parked there, which
    /// is discarded); a failed one is discarded.  Either way the permit is
    /// given back.
    pub fn release(&mut self, endpoint: u64, conn: u64, now_ms: u64, healthy: bool) -> (kept: bool)
        requires
            old(self).wf(),
            old(self).checked_out >= 1,
        ensures
            final(self).wf(),
            final(self).pool_size == old(self).pool_size,
            final(self).checked_out == old(self).checked_out - 1,
            kept == healthy,
            !healthy ==> final(self).idle@ == old(self).idle@,
            healthy ==> ({
                let entry = PoolEntry { endpoint, conn, last_used_ms: now_ms };
                match key_of_idle(old(self).idle@, endpoint) {
                    Some(i) => final(self).idle@ == old(self).idle@.update(i, entry),
                    None => final(self).idle@ == old(self).idle@.push(entry),
                }
            }),
            healthy ==> final(self).spec_has_idle(endpoint),
    {
        self.checked_out = self.checked_out - 1;
        if !healthy {
            return false;
        }
        let entry = PoolEntry { endpoint, conn, last_used_ms: now_ms };
        let n = self.idle.len();
        let mut idx: usize = 0;
        while idx < n
            invariant
                healthy,
                entry == (PoolEntry { endpoint, conn, last_used_ms: now_ms }),
                self.idle@ == old(self).idle@,
                self.pool_size == old(self).pool_size,
                self.checked_out == old(self).checked_out - 1,
                old(self).checked_out >= 1,
                old(self).wf(),
                n == self.idle@.len(),
                idx <= n,
                forall|i: int| 0 <= i < idx ==> self.idle@[i].endpoint != endpoint,
            decreases n - idx,
        {
            if self.idle[idx].endpoint == endpoint {
                proof {
                    let s0 = old(self).idle@;
                    assert(s0[idx as int].endpoint == endpoint);
                    let i = choose|i: int| 0 <= i < s0.len() && s0[i].endpoint == endpoint;
                    assert(s0[i].endpoint == endpoint);
                    assert(i == idx as int);
                }
                self.idle.set(idx, entry);
                proof {
                    assert(forall|i: int| 0 <= i < self.idle@.len() ==>
                        (#[trigger] self.idle@[i]).endpoint
                            == old(self).idle@[i].endpoint);
                    assert(self.idle@[idx as int].endpoint == endpoint);
                    assert(self.idle@ =~= old(self).idle@.update(idx as int, entry));
                    assert(key_of_idle(old(self).idle@, endpoint) == Some(idx as int));
                    assert(entry == (PoolEntry { endpoint, conn, last_used_ms: now_ms }));
                    assert(self.idle@ == old(self).idle@.update(idx as int, entry));
                }
                return true;
            }
            idx = idx + 1;
        }
        proof {
            assert(key_of_idle(old(self).idle@, endpoint) is None);
        }
        self.idle.push(entry);
        proof {
            assert(forall|i: int| 0 <= i < old(self).idle@.len() ==>
                self.idle@[i] == old(self).idle@[i]);
            assert(self.idle@[self.idle@.len() - 1].endpoint == endpoint);
            assert(self.idle@ =~= old(self).idle@.push(entry));
        }
        true
    }

    /// Drop idle entries last used before `cutoff_ms`.  Background eviction
    /// of stale connections; permits of idle entries simply lapse with the
    /// entries.
    pub fn evict_idle(&mut self, cutoff_ms: u64)
        requires
            old(self).wf(),
        ensures
            final(self).wf(),
            final(self).pool_size == old(self).pool_size,
            final(self).checked_out == old(self).checked_out,
            final(self).spec_idle_fresh(cutoff_ms),
            forall|i: int| 0 <= i < final(self).idle@.len() ==>
                old(self).idle@.contains(#[trigger] final(self).idle@[i]),
            forall|i: int| 0 <= i < old(self).idle@.len()
                && (#[trigger] old(self).idle@[i]).last_used_ms >= cutoff_ms ==>
                    final(self).idle@.contains(old(self).idle@[i]),
    {
        let mut kept: Vec<PoolEntry> = Vec::new();
        let n = self.idle.len();
        let mut idx: usize = 0;
        while idx < n
            invariant
                self.idle@ == old(self).idle@,
                self.pool_size == old(self).pool_size,
                self.checked_out == old(self).checked_out,
                old(self).wf(),
                n == self.idle@.len(),
                idx <= n,
                kept@.len() <= idx,
                forall|i: int| 0 <= i < kept@.len() ==>
                    (#[trigger] kept@[i]).last_used_ms >= cutoff_ms,
                forall|i: int| 0 <= i < kept@.len() ==>
                    old(self).idle@.contains(#[trigger] kept@[i]),
                forall|j: int| 0 <= j < idx
                    && (#[trigger] old(self).idle@[j]).last_used_ms >= cutoff_ms ==>
                        kept@.contains(old(self).idle@[j]),
                forall|i: int, j: int|
                    0 <= i < j < kept@.len() ==> kept@[i].endpoint != kept@[j].endpoint,
                forall|i: int, j: int|
                    0 <= i < kept@.len() && idx <= j < n ==>
                        (#[trigger] kept@[i]).endpoint != (#[trigger] old(self).idle@[j]).endpoint,
            decreases n - idx,
        {
            let e = self.idle[idx];
            if e.last_used_ms >= cutoff_ms {
                let ghost pre = kept@;
                kept.push(e);
                proof {
                    assert(kept@ =~= pre.push(e));
                    assert forall|j: int| 0 <= j < idx + 1
                        && (#[trigger] old(self).idle@[j]).last_used_ms >= cutoff_ms
                        implies kept@.contains(old(self).idle@[j]) by {
                        if j < idx {
                            assert(pre.contains(old(self).idle@[j]));
                            let k = choose|k: int|
                                0 <= k < pre.len() && pre[k] == old(self).idle@[j];
                            assert(kept@[k] == old(self).idle@[j]);
                        } else {
                            assert(kept@[kept@.len() - 1] == old(self).idle@[j]);
                        }
                    }
                }
            }
            idx = idx + 1;
        }
        self.idle = kept;
    }
}

/// Law: in every well-formed pool state — and every operation above both
/// demands and re-establishes well-formedness — the number of connections
/// concurrently checked out never exceeds `pool_size`.
pub proof fn lemma_pool_ceiling(p: &ConnectionPool)
    requires
        p.wf(),
    ensures
        p.checked_out <= p.pool_size,
        p.checked_out + p.idle@.len() <= p.pool_size,
{
}

} // verus!
