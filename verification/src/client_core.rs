//! Correlation state of the protocol client: request id allocation and
//! the waiters keyed by id.
//!
//! For every id the client ever allocated, either its waiter is still
//! present — the request is in flight — or it has been removed, and no
//! response for that id will ever resolve a waiter again: a timeout
//! removes the waiter before failing, and a response removes it on
//! arrival; resolving an id without a waiter changes nothing.

use vstd::prelude::*;

verus! {

/// Ids are allocated counting up from one; the waiters hold ids that were
/// allocated and not yet resolved.
pub struct ClientCorrelation {
    next_id: u64,
    pending: Vec<u64>,
}

impl ClientCorrelation {
    /// The next id to allocate.
    pub closed spec fn next(&self) -> u64 {
        self.next_id
    }

    /// The ids with a waiter present.
    pub closed spec fn waiters(&self) -> Seq<u64> {
        self.pending@
    }

    /// Every waiter was allocated before the next id, and no id has two
    /// waiters.
    pub open spec fn wf(&self) -> bool {
        &&& forall|i: int| 0 <= i < self.waiters().len() ==> #[trigger] self.waiters()[i]
            < self.next()
        &&& forall|i: int, j: int|
            0 <= i < self.waiters().len() && 0 <= j < self.waiters().len() && i != j
                ==> self.waiters()[i] != self.waiters()[j]
    }

    /// A fresh client state: ids start at one, nothing in flight.
    pub fn new() -> (r: Self)
        ensures
            r.next() == 1,
            r.waiters() == Seq::<u64>::empty(),
            r.wf(),
    {
        let r = ClientCorrelation { next_id: 1, pending: Vec::new() };
        proof {
            assert(r.waiters() =~= Seq::<u64>::empty());
        }
        r
    }

    /// Allocate the next request id and park a waiter for it. The id is
    /// fresh: no earlier waiter carries it.
    pub fn allocate(&mut self) -> (id: u64)
        requires
            old(self).wf(),
            old(self).next() < u64::MAX,
        ensures
            final(self).wf(),
            id == old(self).next(),
            final(self).next() == id + 1,
            final(self).waiters() == old(self).waiters().push(id),
            !old(self).waiters().contains(id),
    {
        let id = self.next_id;
        self.pending.push(id);
        self.next_id = self.next_id + 1;
        proof {
            if old(self).waiters().contains(id) {
                let k = choose|k: int|
                    0 <= k < old(self).waiters().len() && old(self).waiters()[k] == id;
                assert(old(self).waiters()[k] < id);
            }
        }
        id
    }

    /// Whether another id can still be allocated.
    pub fn has_headroom(&self) -> (r: bool)
        ensures
            r == (self.next() < u64::MAX),
    {
        self.next_id < u64::MAX
    }

    /// Whether a waiter for `id` is present.
    #[verifier::loop_isolation(false)]
    pub fn has_waiter(&self, id: u64) -> (r: bool)
        ensures
            r == self.waiters().contains(id),
    {
        let n = self.pending.len();
        let mut i: usize = 0;
        while i < n
            invariant
                0 <= i <= n,
                n == self.pending@.len(),
                forall|k: int| 0 <= k < i ==> self.waiters()[k] != id,
            decreases n - i,
        {
            if self.pending[i] == id {
                assert(self.waiters()[i as int] == id);
                return true;
            }
            i = i + 1;
        }
        proof {
            if self.waiters().contains(id) {
                let k = choose|k: int|
                    0 <= k < self.waiters().len() && self.waiters()[k] == id;
                assert(self.waiters()[k] != id);
            }
        }
        false
    }

    /// Remove the waiter for `id`, if one is present: a response resolves
    /// it, a timeout abandons it. Returns whether one was there; when none
    /// is, nothing changes, so a late response for a timed-out id can
    /// never resolve a waiter.
    #[verifier::loop_isolation(false)]
    pub fn take_waiter(&mut self, id: u64) -> (r: bool)
        requires
            old(self).wf(),
        ensures
            final(self).wf(),
            r == old(self).waiters().contains(id),
            final(self).next() == old(self).next(),
            final(self).waiters() == old(self).waiters().filter(|x: u64| x != id),
            !final(self).waiters().contains(id),
    {
        let ghost pred = |x: u64| x != id;
        let n = self.pending.len();
        let mut kept: Vec<u64> = Vec::new();
        let mut found = false;
        let mut i: usize = 0;
        proof {
            reveal(Seq::filter);
            assert(kept@ =~= self.waiters().take(0).filter(pred));
        }
        while i < n
            invariant
                0 <= i <= n,
                n == self.pending@.len(),
                kept@ == self.waiters().take(i as int).filter(pred),
                found == self.waiters().take(i as int).contains(id),
            decreases n - i,
        {
            proof {
                reveal(Seq::filter);
                assert(self.waiters().take(i as int + 1).drop_last() =~= self.waiters().take(
                    i as int,
                ));
                assert(self.waiters().take(i as int + 1).last() == self.waiters()[i as int]);
            }
            let ghost pre_found = found;
            if self.pending[i] == id {
                found = true;
                proof {
                    assert(self.waiters().take(i as int + 1)[i as int] == id);
                }
            } else {
                kept.push(self.pending[i]);
            }
            proof {
                if !found {
                    if self.waiters().take(i as int + 1).contains(id) {
                        let k = choose|k: int|
                            0 <= k < i + 1 && #[trigger] self.waiters().take(i as int + 1)[k]
                                == id;
                        assert(self.waiters().take(i as int)[k] == id);
                    }
                } else {
                    if !pre_found {
                    } else {
                        assert(self.waiters().take(i as int).contains(id));
                        let k = choose|k: int|
                            0 <= k < i && #[trigger] self.waiters().take(i as int)[k] == id;
                        assert(self.waiters().take(i as int + 1)[k] == id);
                    }
                }
            }
            i = i + 1;
        }
        proof {
            assert(self.waiters().take(n as int) =~= self.waiters());
        }
        let ghost old_waiters = self.waiters();
        self.pending = kept;
        proof {
            old_waiters.lemma_filter_len(pred);
            assert forall|k: int| 0 <= k < self.waiters().len() implies !(
            #[trigger] self.waiters()[k] == id) by {
                old_waiters.lemma_filter_pred(pred, k);
            }
            assert forall|k: int| 0 <= k < self.waiters().len() implies #[trigger] self.waiters()[k]
                < self.next() by {
                lemma_filter_membership_u64(old_waiters, pred, k);
                let w = choose|w: int|
                    0 <= w < old_waiters.len() && old_waiters[w] == self.waiters()[k];
            }
            lemma_filter_unique_u64(old_waiters, pred);
            if self.waiters().contains(id) {
                let k = choose|k: int|
                    0 <= k < self.waiters().len() && self.waiters()[k] == id;
                old_waiters.lemma_filter_pred(pred, k);
            }
        }
        found
    }
}

/// Whatever the filter keeps was already a waiter.
proof fn lemma_filter_membership_u64(m: Seq<u64>, pred: spec_fn(u64) -> bool, i: int)
    requires
        0 <= i < m.filter(pred).len(),
    ensures
        exists|j: int| 0 <= j < m.len() && m[j] == m.filter(pred)[i],
    decreases m.len(),
{
    reveal(Seq::filter);
    if m.len() > 0 {
        let sub = m.drop_last().filter(pred);
        if pred(m.last()) && i == sub.len() {
            assert(m[m.len() - 1] == m.filter(pred)[i]);
        } else {
            lemma_filter_membership_u64(m.drop_last(), pred, i);
            let j = choose|j: int|
                0 <= j < m.drop_last().len() && m.drop_last()[j] == m.drop_last().filter(pred)[i];
            assert(m[j] == m.filter(pred)[i]);
        }
    }
}

/// Filtering keeps waiters pairwise distinct.
proof fn lemma_filter_unique_u64(m: Seq<u64>, pred: spec_fn(u64) -> bool)
    requires
        forall|i: int, j: int|
            0 <= i < m.len() && 0 <= j < m.len() && i != j ==> m[i] != m[j],
    ensures
        forall|i: int, j: int|
            0 <= i < m.filter(pred).len() && 0 <= j < m.filter(pred).len() && i != j
                ==> m.filter(pred)[i] != m.filter(pred)[j],
    decreases m.len(),
{
    reveal(Seq::filter);
    if m.len() > 0 {
        assert(forall|i: int|
            0 <= i < m.drop_last().len() ==> #[trigger] m.drop_last()[i] == m[i]);
        lemma_filter_unique_u64(m.drop_last(), pred);
        let sub = m.drop_last().filter(pred);
        if pred(m.last()) {
            let out = sub.push(m.last());
            assert forall|i: int, j: int|
                0 <= i < out.len() && 0 <= j < out.len() && i != j implies out[i] != out[j] by {
                if i < sub.len() && j < sub.len() {
                } else {
                    let a = if i < sub.len() {
                        i
                    } else {
                        j
                    };
                    lemma_filter_membership_u64(m.drop_last(), pred, a);
                    let w = choose|w: int|
                        0 <= w < m.drop_last().len() && m.drop_last()[w] == sub[a];
                    assert(m[w] == sub[a]);
                    assert(m[m.len() - 1] != m[w]);
                }
            }
        }
    }
}

} // verus!
