use vstd::prelude::*;

use crate::record::{Identity, Reputation};

verus! {

/// First-match lookup in an association sequence of identities and records.
/// This is the mathematical model of the store's record namespace.
pub open spec fn lookup(entries: Seq<(Identity, Reputation)>, id: Identity) -> Option<Reputation>
    decreases entries.len(),
{
    if entries.len() == 0 {
        None
    } else if entries[0].0 == id {
        Some(entries[0].1)
    } else {
        lookup(entries.drop_first(), id)
    }
}

/// Skipping a prefix with no matching key does not change the lookup result.
proof fn lemma_lookup_skip(entries: Seq<(Identity, Reputation)>, id: Identity, i: int)
    requires
        0 <= i <= entries.len(),
        forall|j: int| 0 <= j < i ==> (#[trigger] entries[j]).0 != id,
    ensures
        lookup(entries, id) == lookup(entries.skip(i), id),
    decreases i,
{
    if i > 0 {
        assert(entries.drop_first().skip(i - 1) =~= entries.skip(i));
        lemma_lookup_skip(entries.drop_first(), id, i - 1);
    } else {
        assert(entries.skip(0) =~= entries);
    }
}

/// Overwriting the first entry that carries `id` updates the lookup for `id`
/// and leaves every other key's lookup untouched.
proof fn lemma_lookup_update(
    entries: Seq<(Identity, Reputation)>,
    i: int,
    id: Identity,
    rec: Reputation,
)
    requires
        0 <= i < entries.len(),
        entries[i].0 == id,
        forall|j: int| 0 <= j < i ==> (#[trigger] entries[j]).0 != id,
    ensures
        lookup(entries.update(i, (id, rec)), id) == Some(rec),
        forall|x: Identity| x != id ==> lookup(entries.update(i, (id, rec)), x) == lookup(
            entries,
            x,
        ),
    decreases i,
{
    let updated = entries.update(i, (id, rec));
    if i == 0 {
        assert(updated[0] == (id, rec));
        assert forall|x: Identity| x != id implies lookup(updated, x) == lookup(entries, x) by {
            assert(updated.drop_first() =~= entries.drop_first());
        }
    } else {
        assert(updated[0] == entries[0]);
        assert(updated.drop_first() =~= entries.drop_first().update(i - 1, (id, rec)));
        lemma_lookup_update(entries.drop_first(), i - 1, id, rec);
        assert forall|x: Identity| x != id implies lookup(updated, x) == lookup(entries, x) by {
            if entries[0].0 != x {
                assert(lookup(updated, x) == lookup(updated.drop_first(), x));
                assert(lookup(entries, x) == lookup(entries.drop_first(), x));
            }
        }
    }
}

/// Appending an entry whose key occurs nowhere in the sequence makes the
/// lookup for that key find it, and changes no other key's lookup.
proof fn lemma_lookup_push(entries: Seq<(Identity, Reputation)>, id: Identity, rec: Reputation)
    requires
        forall|j: int| 0 <= j < entries.len() ==> (#[trigger] entries[j]).0 != id,
    ensures
        lookup(entries.push((id, rec)), id) == Some(rec),
        forall|x: Identity| x != id ==> lookup(entries.push((id, rec)), x) == lookup(entries, x),
    decreases entries.len(),
{
    let pushed = entries.push((id, rec));
    if entries.len() == 0 {
        assert(pushed[0] == (id, rec));
        assert forall|x: Identity| x != id implies lookup(pushed, x) == lookup(entries, x) by {
            assert(pushed.drop_first() =~= Seq::<(Identity, Reputation)>::empty());
            assert(lookup(pushed.drop_first(), x) is None);
            assert(lookup(pushed, x) == lookup(pushed.drop_first(), x));
            assert(lookup(entries, x) is None);
        }
    } else {
        assert(pushed[0] == entries[0]);
        assert(pushed.drop_first() =~= entries.drop_first().push((id, rec)));
        lemma_lookup_push(entries.drop_first(), id, rec);
        assert forall|x: Identity| x != id implies lookup(pushed, x) == lookup(entries, x) by {
            if entries[0].0 != x {
                assert(lookup(pushed, x) == lookup(pushed.drop_first(), x));
                assert(lookup(entries, x) == lookup(entries.drop_first(), x));
            }
        }
    }
}

/// A store whose record for `id` became `rec` and whose other records kept
/// their values holds only well-formed records, provided it did before and
/// `rec` itself is well-formed.
proof fn lemma_wf_after_put(
    pre: ReputationStore,
    post: ReputationStore,
    id: Identity,
    rec: Reputation,
)
    requires
        pre.wf(),
        rec.wf(),
        post.spec_get(id) == Some(rec),
        forall|x: Identity| x != id ==> post.spec_get(x) == pre.spec_get(x),
    ensures
        post.wf(),
{
    assert forall|y: Identity|
        (#[trigger] post.spec_get(y)) is Some implies post.spec_get(y)->Some_0.wf() by {
        if y != id {
            assert(post.spec_get(y) == pre.spec_get(y));
        }
    }
}

/// A store whose records all kept their values stays well-formed.
proof fn lemma_wf_unchanged(pre: ReputationStore, post: ReputationStore)
    requires
        pre.wf(),
        forall|x: Identity| post.spec_get(x) == pre.spec_get(x),
    ensures
        post.wf(),
{
    assert forall|y: Identity|
        (#[trigger] post.spec_get(y)) is Some implies post.spec_get(y)->Some_0.wf() by {
        assert(post.spec_get(y) == pre.spec_get(y));
    }
}

/// Durable state for the reputation system: one record per reviewed
/// identity, the single global review counter, and the liveness horizon the
/// backend was last asked to keep the state alive for. Records and the
/// counter live in physically separate namespaces, so their keys cannot
/// collide.
pub struct ReputationStore {
    records: Vec<(Identity, Reputation)>,
    review_count: u64,
    liveness: u64,
}

impl ReputationStore {
    /// The record stored for `id`, or `None` if `id` has no history.
    pub closed spec fn spec_get(self, id: Identity) -> Option<Reputation> {
        lookup(self.records@, id)
    }

    /// The global review counter.
    pub closed spec fn counter(self) -> u64 {
        self.review_count
    }

    /// The liveness horizon last requested from the backend.
    pub closed spec fn liveness(self) -> u64 {
        self.liveness
    }

    /// Every record the store holds is well-formed.
    pub open spec fn wf(self) -> bool {
        forall|id: Identity|
            (#[trigger] self.spec_get(id)) is Some ==> self.spec_get(id)->Some_0.wf()
    }

    /// A fresh store: no records, a zero counter, no liveness requested.
    pub fn new() -> (s: ReputationStore)
        ensures
            forall|id: Identity| s.spec_get(id) is None,
            s.counter() == 0,
            s.liveness() == 0,
            s.wf(),
    {
        let s = ReputationStore { records: Vec::new(), review_count: 0, liveness: 0 };
        proof {
            assert forall|id: Identity| s.spec_get(id) is None by {
                assert(s.records@.len() == 0);
            }
        }
        s
    }

    /// Returns the stored record for `id`, or its absence.
    pub fn get(&self, id: Identity) -> (r: Option<Reputation>)
        ensures
            r == self.spec_get(id),
    {
        let n = self.records.len();
        let mut i: usize = 0;
        while i < n
            invariant
                i <= n,
                n == self.records.len(),
                forall|j: int| 0 <= j < i ==> (#[trigger] self.records@[j]).0 != id,
            decreases n - i,
        {
            let (k, v) = self.records[i];
            if k.id == id.id {
                proof {
                    lemma_lookup_skip(self.records@, id, i as int);
                    assert(self.records@.skip(i as int)[0] == (k, v));
                }
                return Some(v);
            }
            i = i + 1;
        }
        proof {
            lemma_lookup_skip(self.records@, id, n as int);
            assert(self.records@.skip(n as int) =~= Seq::<(Identity, Reputation)>::empty());
        }
        None
    }

    /// Overwrites the record for `id`. The caller passes a record already
    /// known to be well-formed, so a well-formed store stays well-formed.
    pub fn put(&mut self, id: Identity, rec: Reputation)
        requires
            rec.wf(),
        ensures
            final(self).spec_get(id) == Some(rec),
            forall|x: Identity| x != id ==> final(self).spec_get(x) == old(self).spec_get(x),
            final(self).counter() == old(self).counter(),
            final(self).liveness() == old(self).liveness(),
            old(self).wf() ==> final(self).wf(),
    {
        let n = self.records.len();
        let mut i: usize = 0;
        while i < n
            invariant
                i <= n,
                n == self.records.len(),
                *self == *old(self),
                rec.wf(),
                forall|j: int| 0 <= j < i ==> (#[trigger] self.records@[j]).0 != id,
            decreases n - i,
        {
            let (k, _) = self.records[i];
            if k.id == id.id {
                let ghost before = self.records@;
                self.records.set(i, (id, rec));
                proof {
                    lemma_lookup_update(before, i as int, id, rec);
                    if old(self).wf() {
                        lemma_wf_after_put(*old(self), *self, id, rec);
                    }
                }
                return;
            }
            i = i + 1;
        }
        let ghost before = self.records@;
        self.records.push((id, rec));
        proof {
            lemma_lookup_push(before, id, rec);
            if old(self).wf() {
                lemma_wf_after_put(*old(self), *self, id, rec);
            }
        }
    }

    /// Reads the global review counter; zero means no review was ever
    /// accepted.
    pub fn get_counter(&self) -> (c: u64)
        ensures
            c == self.counter(),
    {
        self.review_count
    }

    /// Overwrites the global review counter.
    pub fn put_counter(&mut self, value: u64)
        ensures
            final(self).counter() == value,
            forall|x: Identity| final(self).spec_get(x) == old(self).spec_get(x),
            final(self).liveness() == old(self).liveness(),
            old(self).wf() ==> final(self).wf(),
    {
        self.review_count = value;
        proof {
            if old(self).wf() {
                lemma_wf_unchanged(*old(self), *self);
            }
        }
    }

    /// Asks the backend to keep the state alive: if fewer than `min_ttl`
    /// units remain, the horizon is refreshed to `target_ttl`; otherwise it
    /// is left alone. Stored records and the counter are never affected.
    pub fn extend_liveness(&mut self, min_ttl: u64, target_ttl: u64)
        requires
            min_ttl <= target_ttl,
        ensures
            final(self).liveness() == if old(self).liveness() < min_ttl {
                target_ttl
            } else {
                old(self).liveness()
            },
            final(self).liveness() >= old(self).liveness(),
            forall|x: Identity| final(self).spec_get(x) == old(self).spec_get(x),
            final(self).counter() == old(self).counter(),
            old(self).wf() ==> final(self).wf(),
    {
        if self.liveness < min_ttl {
            self.liveness = target_ttl;
        }
        proof {
            if old(self).wf() {
                lemma_wf_unchanged(*old(self), *self);
            }
        }
    }

    /// Reads back the liveness horizon last requested.
    pub fn get_liveness(&self) -> (l: u64)
        ensures
            l == self.liveness(),
    {
        self.liveness
    }
}

} // verus!
