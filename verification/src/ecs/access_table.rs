use vstd::prelude::*;

use crate::ecs::query_system::AccessType;
use crate::ecs::world::Entity;

verus! {

/// The key of one lockable resource: a component type on one entity.
/// Component types are identified by a numeric type key.
pub type ResourceKey = (Entity, u64);

/// Information about an active resource access.
#[derive(Debug, Clone, Copy, PartialEq, Eq, Structural)]
pub struct ResourceAccess {
    /// Identifier of the query holding the access.
    pub query_id: u64,
    /// Kind of access the query holds.
    pub access_type: AccessType,
}

/// Lexicographic order on resource keys: by entity id, then by type key.
pub open spec fn key_lt(a: ResourceKey, b: ResourceKey) -> bool {
    a.0.0 < b.0.0 || (a.0.0 == b.0.0 && a.1 < b.1)
}

/// Every element is smaller than all later ones (so no element occurs twice).
pub open spec fn strictly_sorted(s: Seq<ResourceKey>) -> bool {
    forall|i: int, j: int| 0 <= i < j < s.len() ==> key_lt(s[i], s[j])
}

/// `s` holds exactly the keys of `keys`, once each, in increasing order.
pub open spec fn sorted_set_of(s: Seq<ResourceKey>, keys: Seq<ResourceKey>) -> bool {
    &&& strictly_sorted(s)
    &&& forall|k: ResourceKey| s.contains(k) <==> keys.contains(k)
}

/// Whether an access of kind `at` to key `k` is compatible with the accesses
/// recorded in `m`: writes exclude everything, reads only exclude writes.
pub open spec fn can_acquire_spec(
    m: Map<ResourceKey, Seq<ResourceAccess>>,
    k: ResourceKey,
    at: AccessType,
) -> bool {
    !m.dom().contains(k) || forall|j: int|
        0 <= j < m[k].len() ==> (at == AccessType::Read && (#[trigger] m[k][j]).access_type
            == AccessType::Read)
}

/// The accesses recorded for `k`, empty when none are.
pub open spec fn accesses_or_empty(
    m: Map<ResourceKey, Seq<ResourceAccess>>,
    k: ResourceKey,
) -> Seq<ResourceAccess> {
    if m.dom().contains(k) {
        m[k]
    } else {
        Seq::empty()
    }
}

/// Whether some step of `plan` is for key `k`.
pub open spec fn plan_has_key(plan: Seq<(ResourceKey, AccessType)>, k: ResourceKey) -> bool {
    exists|i: int| 0 <= i < plan.len() && (#[trigger] plan[i]).0 == k
}

/// No key occurs twice in `plan`.
pub open spec fn plan_keys_distinct(plan: Seq<(ResourceKey, AccessType)>) -> bool {
    forall|i: int, j: int| 0 <= i < j < plan.len() ==> (#[trigger] plan[i]).0 != (#[trigger] plan[j]).0
}

/// Accesses that do not belong to query `qid`, in their order.
pub open spec fn without_query(s: Seq<ResourceAccess>, qid: u64) -> Seq<ResourceAccess>
    decreases s.len(),
{
    if s.len() == 0 {
        s
    } else if s.last().query_id == qid {
        without_query(s.drop_last(), qid)
    } else {
        without_query(s.drop_last(), qid).push(s.last())
    }
}


/// Exec form of [`key_lt`].
pub fn key_less(a: ResourceKey, b: ResourceKey) -> (r: bool)
    ensures
        r == key_lt(a, b),
{
    a.0.0 < b.0.0 || (a.0.0 == b.0.0 && a.1 < b.1)
}

/// Equality of resource keys.
pub fn key_equal(a: ResourceKey, b: ResourceKey) -> (r: bool)
    ensures
        r == (a == b),
{
    a.0.0 == b.0.0 && a.1 == b.1
}

proof fn lemma_take_push_contains(s: Seq<ResourceKey>, n: int, x: ResourceKey)
    requires
        0 <= n < s.len(),
    ensures
        s.take(n + 1).contains(x) <==> (s.take(n).contains(x) || x == s[n]),
{
    let t0 = s.take(n);
    let t1 = s.take(n + 1);
    if t1.contains(x) {
        let j = choose|j: int| 0 <= j < t1.len() && t1[j] == x;
        if j < n {
            assert(t0[j] == x);
        }
    }
    if t0.contains(x) {
        let j = choose|j: int| 0 <= j < t0.len() && t0[j] == x;
        assert(t1[j] == x);
    }
    if x == s[n] {
        assert(t1[n] == x);
    }
}

/// The keys of `keys`, once each, in increasing order: the order in which a
/// query takes its locks, so that concurrent queries cannot deadlock.
pub fn sorted_unique_keys(keys: &Vec<ResourceKey>) -> (r: Vec<ResourceKey>)
    ensures
        sorted_set_of(r@, keys@),
{
    let mut r: Vec<ResourceKey> = Vec::new();
    let mut i: usize = 0;
    while i < keys.len()
        invariant
            i <= keys@.len(),
            strictly_sorted(r@),
            forall|x: ResourceKey| r@.contains(x) <==> keys@.take(i as int).contains(x),
        decreases keys@.len() - i,
    {
        let k = keys[i];
        let mut p: usize = 0;
        while p < r.len() && key_less(r[p], k)
            invariant
                p <= r@.len(),
                i < keys@.len(),
                k == keys@[i as int],
                strictly_sorted(r@),
                forall|x: ResourceKey| r@.contains(x) <==> keys@.take(i as int).contains(x),
                forall|m: int| 0 <= m < p ==> key_lt(r@[m], k),
            decreases r@.len() - p,
        {
            p = p + 1;
        }
        let ghost old_r = r@;
        let ghost t1 = keys@.take(i + 1);
        proof {
            assert forall|x: ResourceKey| #[trigger] t1.contains(x) <==> (keys@.take(i as int).contains(x) || x == k) by {
                lemma_take_push_contains(keys@, i as int, x);
            }
        }
        if p < r.len() && key_equal(r[p], k) {
            proof {
                assert(old_r[p as int] == k);
                assert(old_r.contains(k));
                assert forall|x: ResourceKey| r@.contains(x) <==> (old_r.contains(x) || x == k) by {}
            }
        } else {
            r.insert(p, k);
            proof {
                assert(r@ == old_r.insert(p as int, k));
                assert forall|m: int| p <= m < old_r.len() implies key_lt(k, #[trigger] old_r[m]) by {
                    assert(!key_lt(old_r[p as int], k));
                    assert(old_r[p as int] != k);
                    if m > p {
                        assert(key_lt(old_r[p as int], old_r[m]));
                    }
                }
                assert forall|a: int, b: int| 0 <= a < b < r@.len() implies key_lt(r@[a], r@[b]) by {
                    if b < p {
                        assert(r@[a] == old_r[a] && r@[b] == old_r[b]);
                    } else if b == p {
                        assert(r@[a] == old_r[a]);
                    } else if a < p {
                        assert(r@[a] == old_r[a] && r@[b] == old_r[b - 1]);
                        assert(key_lt(old_r[a], k));
                        assert(key_lt(k, old_r[b - 1]));
                    } else if a == p {
                        assert(r@[b] == old_r[b - 1]);
                    } else {
                        assert(r@[a] == old_r[a - 1] && r@[b] == old_r[b - 1]);
                    }
                }
                assert forall|x: ResourceKey| r@.contains(x) <==> (old_r.contains(x) || x == k) by {
                    if r@.contains(x) {
                        let j = choose|j: int| 0 <= j < r@.len() && r@[j] == x;
                        if j < p {
                            assert(old_r[j] == x);
                        } else if j > p {
                            assert(old_r[j - 1] == x);
                        }
                    }
                    if old_r.contains(x) {
                        let j = choose|j: int| 0 <= j < old_r.len() && old_r[j] == x;
                        if j < p {
                            assert(r@[j] == x);
                        } else {
                            assert(r@[j + 1] == x);
                        }
                    }
                    if x == k {
                        assert(r@[p as int] == x);
                    }
                }
            }
        }
        proof {
            assert forall|x: ResourceKey| #[trigger] r@.contains(x) <==> t1.contains(x) by {
                assert(old_r.contains(x) <==> keys@.take(i as int).contains(x));
                assert(t1.contains(x) <==> (keys@.take(i as int).contains(x) || x == k));
                assert(r@.contains(x) <==> (old_r.contains(x) || x == k));
            }
        }
        i = i + 1;
        proof {
            assert(keys@.take(i as int) == t1);
        }
    }
    proof {
        assert(keys@.take(keys@.len() as int) =~= keys@);
    }
    r
}

/// Every two distinct positions of a strictly sorted sequence hold distinct keys.
pub proof fn lemma_strictly_sorted_distinct(s: Seq<ResourceKey>)
    requires
        strictly_sorted(s),
    ensures
        forall|i: int, j: int| 0 <= i < j < s.len() ==> s[i] != s[j],
{
    assert forall|i: int, j: int| 0 <= i < j < s.len() implies s[i] != s[j] by {
        assert(key_lt(s[i], s[j]));
    }
}

/// The accesses held by active queries, one entry per resource key.
pub struct AccessTable {
    entries: Vec<(ResourceKey, Vec<ResourceAccess>)>,
}

impl AccessTable {
    spec fn has_entry(&self, k: ResourceKey) -> bool {
        exists|i: int| 0 <= i < self.entries@.len() && self.entries@[i].0 == k
    }

    spec fn entry_index(&self, k: ResourceKey) -> int {
        choose|i: int| 0 <= i < self.entries@.len() && self.entries@[i].0 == k
    }

    /// The active accesses, by resource key. A key is present exactly when some
    /// query holds an access to it.
    pub closed spec fn accesses(&self) -> Map<ResourceKey, Seq<ResourceAccess>> {
        Map::new(|k: ResourceKey| self.has_entry(k), |k: ResourceKey| self.entries@[self.entry_index(k)].1@)
    }

    /// Internal consistency of the world.
    pub closed spec fn wf(&self) -> bool {
        &&& forall|i: int, j: int|
            0 <= i < j < self.entries@.len() ==> self.entries@[i].0
                != self.entries@[j].0
        &&& forall|i: int|
            0 <= i < self.entries@.len() ==> self.entries@[i].1@.len() > 0
    }

    proof fn lemma_entry(&self, i: int)
        requires
            self.wf(),
            0 <= i < self.entries@.len(),
        ensures
            self.accesses().dom().contains(self.entries@[i].0),
            self.accesses()[self.entries@[i].0] == self.entries@[i].1@,
    {
        let k = self.entries@[i].0;
        assert(self.has_entry(k));
        let j = self.entry_index(k);
        assert(self.entries@[j].0 == k);
        if j != i {
            if i < j {
                assert(self.entries@[i].0 != self.entries@[j].0);
            } else {
                assert(self.entries@[j].0 != self.entries@[i].0);
            }
        }
    }

    proof fn lemma_absent(&self, k: ResourceKey)
        requires
            forall|i: int| 0 <= i < self.entries@.len() ==> self.entries@[i].0 != k,
        ensures
            !self.accesses().dom().contains(k),
    {
    }

    /// An empty table.
    pub fn new() -> (t: Self)
        ensures
            t.wf(),
            t.accesses() == Map::<ResourceKey, Seq<ResourceAccess>>::empty(),
    {
        let t = AccessTable { entries: Vec::new() };
        assert(t.accesses() =~= Map::<ResourceKey, Seq<ResourceAccess>>::empty());
        t
    }

    /// The number of resources that currently have at least one active access.
    pub fn len(&self) -> (r: usize)
        requires
            self.wf(),
        ensures
            r == self.accesses().dom().len(),
    {
        proof {
            let keys = self.entries@.map_values(|e: (ResourceKey, Vec<ResourceAccess>)| e.0);
            assert forall|i: int, j: int| 0 <= i < keys.len() && 0 <= j < keys.len() && i != j
                implies keys[i] != keys[j] by {
                if i < j {
                    assert(self.entries@[i].0 != self.entries@[j].0);
                } else {
                    assert(self.entries@[j].0 != self.entries@[i].0);
                }
            }
            assert(keys.no_duplicates());
            keys.unique_seq_to_set();
            assert forall|k: ResourceKey| #[trigger] self.accesses().dom().contains(k) <==> keys.to_set().contains(k) by {
                if self.accesses().dom().contains(k) {
                    let i = self.entry_index(k);
                    assert(keys[i] == k);
                }
                if keys.to_set().contains(k) {
                    let i = choose|i: int| 0 <= i < keys.len() && keys[i] == k;
                    assert(self.entries@[i].0 == k);
                }
            }
            assert(self.accesses().dom() =~= keys.to_set());
        }
        self.entries.len()
    }

    /// Drop every active access at once.
    pub fn clear(&mut self)
        requires
            old(self).wf(),
        ensures
            final(self).wf(),
            final(self).accesses() == Map::<ResourceKey, Seq<ResourceAccess>>::empty(),
    {
        self.entries.clear();
        proof {
            assert(self.accesses() =~= Map::<ResourceKey, Seq<ResourceAccess>>::empty());
        }
    }

    /// Find the index of the entry for `k`, if any.
    fn find_entry(&self, k: ResourceKey) -> (r: Option<usize>)
        requires
            self.wf(),
        ensures
            match r {
                Some(i) => i < self.entries@.len() && self.entries@[i as int].0 == k,
                None => !self.accesses().dom().contains(k) && forall|i: int|
                    0 <= i < self.entries@.len() ==> self.entries@[i].0 != k,
            },
    {
        let mut i: usize = 0;
        while i < self.entries.len()
            invariant
                i <= self.entries@.len(),
                forall|j: int| 0 <= j < i ==> self.entries@[j].0 != k,
            decreases self.entries@.len() - i,
        {
            let ek = self.entries[i].0;
            if ek.0.0 == k.0.0 && ek.1 == k.1 {
                return Some(i);
            }
            i = i + 1;
        }
        proof {
            self.lemma_absent(k);
        }
        None
    }

    /// Record one more access for `k`, creating its entry when needed.
    fn push_access(&mut self, k: ResourceKey, a: ResourceAccess)
        requires
            old(self).wf(),
        ensures
            final(self).wf(),
            final(self).accesses().dom().contains(k),
            final(self).accesses()[k] == accesses_or_empty(old(self).accesses(), k).push(a),
            forall|k2: ResourceKey|
                k2 != k ==> (#[trigger] final(self).accesses().dom().contains(k2)
                    == old(self).accesses().dom().contains(k2)),
            forall|k2: ResourceKey|
                k2 != k && old(self).accesses().dom().contains(k2) ==> #[trigger] final(self).accesses()[k2]
                    == old(self).accesses()[k2],
    {
        let ghost old_self = *self;
        match self.find_entry(k) {
            None => {
                let mut v: Vec<ResourceAccess> = Vec::new();
                v.push(a);
                self.entries.push((k, v));
                proof {
                    let n = old_self.entries@.len() as int;
                    assert(self.entries@[n].0 == k);
                    self.lemma_entry(n);
                    assert(accesses_or_empty(old_self.accesses(), k) =~= Seq::<ResourceAccess>::empty());
                    assert(self.accesses()[k] =~= accesses_or_empty(old_self.accesses(), k).push(a));
                    assert forall|k2: ResourceKey|
                        #![trigger self.accesses().dom().contains(k2)]
                        #![trigger self.accesses()[k2]]
                        k2 != k implies
                        (self.accesses().dom().contains(k2) == old_self.accesses().dom().contains(k2))
                        && (old_self.accesses().dom().contains(k2) ==> self.accesses()[k2]
                            == old_self.accesses()[k2]) by {
                        if old_self.accesses().dom().contains(k2) {
                            let j = old_self.entry_index(k2);
                            assert(self.entries@[j] == old_self.entries@[j]);
                            old_self.lemma_entry(j);
                            self.lemma_entry(j);
                        } else {
                            assert forall|j: int| 0 <= j < self.entries@.len() implies
                                self.entries@[j].0 != k2 by {
                                if j < n {
                                    assert(self.entries@[j] == old_self.entries@[j]);
                                    if old_self.entries@[j].0 == k2 {
                                        assert(old_self.has_entry(k2));
                                    }
                                }
                            }
                            self.lemma_absent(k2);
                        }
                    }
                }
            },
            Some(i) => {
                proof {
                    old_self.lemma_entry(i as int);
                }
                let (ek, mut v) = self.entries.remove(i);
                v.push(a);
                self.entries.insert(i, (ek, v));
                proof {
                    assert(self.entries@ =~= old_self.entries@.update(
                        i as int,
                        (ek, v),
                    ));
                    self.lemma_entry(i as int);
                    assert forall|k2: ResourceKey|
                        #![trigger self.accesses().dom().contains(k2)]
                        #![trigger self.accesses()[k2]]
                        k2 != k implies
                        (self.accesses().dom().contains(k2) == old_self.accesses().dom().contains(k2))
                        && (old_self.accesses().dom().contains(k2) ==> self.accesses()[k2]
                            == old_self.accesses()[k2]) by {
                        if old_self.accesses().dom().contains(k2) {
                            let j = old_self.entry_index(k2);
                            assert(j != i);
                            assert(self.entries@[j] == old_self.entries@[j]);
                            old_self.lemma_entry(j);
                            self.lemma_entry(j);
                        } else {
                            assert forall|j: int| 0 <= j < self.entries@.len() implies
                                self.entries@[j].0 != k2 by {
                                if old_self.entries@[j].0 == k2 {
                                    assert(old_self.has_entry(k2));
                                }
                            }
                            self.lemma_absent(k2);
                        }
                    }
                }
            },
        }
    }

    /// Atomically register the accesses of `plan` for query `query_id`: when
    /// every step is compatible with the accesses already held, all of them are
    /// recorded and `true` is returned; otherwise nothing changes.
    pub fn try_register_accesses(
        &mut self,
        query_id: u64,
        plan: &Vec<(ResourceKey, AccessType)>,
    ) -> (ok: bool)
        requires
            old(self).wf(),
            plan_keys_distinct(plan@),
        ensures
            final(self).wf(),
            ok == forall|i: int|
                0 <= i < plan@.len() ==> can_acquire_spec(
                    old(self).accesses(),
                    (#[trigger] plan@[i]).0,
                    plan@[i].1,
                ),
            !ok ==> final(self).accesses() == old(self).accesses(),
            ok ==> forall|i: int|
                0 <= i < plan@.len() ==> final(self).accesses().dom().contains((#[trigger] plan@[i]).0)
                    && final(self).accesses()[plan@[i].0] == accesses_or_empty(
                    old(self).accesses(),
                    plan@[i].0,
                ).push(ResourceAccess { query_id, access_type: plan@[i].1 }),
            ok ==> forall|k: ResourceKey|
                !plan_has_key(plan@, k) ==> (#[trigger] final(self).accesses().dom().contains(k)
                    == old(self).accesses().dom().contains(k)),
            ok ==> forall|k: ResourceKey|
                !plan_has_key(plan@, k) && old(self).accesses().dom().contains(k)
                    ==> #[trigger] final(self).accesses()[k] == old(self).accesses()[k],
    {
        let mut i: usize = 0;
        while i < plan.len()
            invariant
                self.wf(),
                i <= plan@.len(),
                forall|m: int|
                    0 <= m < i ==> can_acquire_spec(self.accesses(), (#[trigger] plan@[m]).0, plan@[m].1),
            decreases plan@.len() - i,
        {
            let (k, at) = plan[i];
            if !self.can_acquire_resource(k, at) {
                return false;
            }
            i = i + 1;
        }
        let ghost old_self = *self;
        let mut n: usize = 0;
        while n < plan.len()
            invariant
                self.wf(),
                n <= plan@.len(),
                plan_keys_distinct(plan@),
                forall|m: int|
                    0 <= m < n ==> self.accesses().dom().contains((#[trigger] plan@[m]).0)
                        && self.accesses()[plan@[m].0] == accesses_or_empty(
                        old_self.accesses(),
                        plan@[m].0,
                    ).push(ResourceAccess { query_id, access_type: plan@[m].1 }),
                forall|k: ResourceKey|
                    #![trigger self.accesses().dom().contains(k)]
                    #![trigger self.accesses()[k]]
                    (forall|m: int| 0 <= m < n ==> (#[trigger] plan@[m]).0 != k) ==> (
                    self.accesses().dom().contains(k) == old_self.accesses().dom().contains(
                        k,
                    )) && (old_self.accesses().dom().contains(k) ==> self.accesses()[k]
                        == old_self.accesses()[k]),
            decreases plan@.len() - n,
        {
            let (k, at) = plan[n];
            let ghost before = *self;
            proof {
                assert forall|m: int| 0 <= m < n implies (#[trigger] plan@[m]).0 != k by {
                    assert(plan@[m].0 != plan@[n as int].0);
                }
            }
            self.push_access(k, ResourceAccess { query_id, access_type: at });
            proof {
                assert forall|m: int| 0 <= m < n + 1 implies self.accesses().dom().contains(
                    (#[trigger] plan@[m]).0,
                ) && self.accesses()[plan@[m].0] == accesses_or_empty(
                    old_self.accesses(),
                    plan@[m].0,
                ).push(ResourceAccess { query_id, access_type: plan@[m].1 }) by {
                    if m < n {
                        assert(plan@[m].0 != plan@[n as int].0);
                    }
                }
            }
            n = n + 1;
        }
        proof {
            assert forall|k: ResourceKey| !plan_has_key(plan@, k) implies (forall|m: int|
                0 <= m < plan@.len() ==> (#[trigger] plan@[m]).0 != k) by {}
        }
        true
    }

    /// Remove every access of query `query_id` from the entries of `keys`; an
    /// entry left without accesses is removed.
    pub fn release_accesses(&mut self, query_id: u64, keys: &Vec<ResourceKey>)
        requires
            old(self).wf(),
        ensures
            final(self).wf(),
            forall|k: ResourceKey|
                keys@.contains(k) ==> (#[trigger] final(self).accesses().dom().contains(k) <==> (
                old(self).accesses().dom().contains(k) && without_query(
                    old(self).accesses()[k],
                    query_id,
                ).len() > 0)),
            forall|k: ResourceKey|
                keys@.contains(k) && final(self).accesses().dom().contains(k)
                    ==> #[trigger] final(self).accesses()[k] == without_query(
                    old(self).accesses()[k],
                    query_id,
                ),
            forall|k: ResourceKey|
                !keys@.contains(k) ==> (#[trigger] final(self).accesses().dom().contains(k)
                    == old(self).accesses().dom().contains(k)),
            forall|k: ResourceKey|
                !keys@.contains(k) && old(self).accesses().dom().contains(k)
                    ==> #[trigger] final(self).accesses()[k] == old(self).accesses()[k],
    {
        let ghost old_self = *self;
        let mut n: usize = 0;
        while n < keys.len()
            invariant
                self.wf(),
                n <= keys@.len(),
                forall|k: ResourceKey|
                    keys@.take(n as int).contains(k) ==> (#[trigger] self.accesses().dom().contains(k) <==> (
                    old_self.accesses().dom().contains(k) && without_query(
                        old_self.accesses()[k],
                        query_id,
                    ).len() > 0)),
                forall|k: ResourceKey|
                    keys@.take(n as int).contains(k) && self.accesses().dom().contains(k)
                        ==> #[trigger] self.accesses()[k] == without_query(
                        old_self.accesses()[k],
                        query_id,
                    ),
                forall|k: ResourceKey|
                    !keys@.take(n as int).contains(k) ==> (#[trigger] self.accesses().dom().contains(k)
                        == old_self.accesses().dom().contains(k)),
                forall|k: ResourceKey|
                    !keys@.take(n as int).contains(k) && old_self.accesses().dom().contains(k)
                        ==> #[trigger] self.accesses()[k] == old_self.accesses()[k],
            decreases keys@.len() - n,
        {
            let k = keys[n];
            let ghost before = *self;
            self.strip_query(k, query_id);
            proof {
                let t0 = keys@.take(n as int);
                let t1 = keys@.take(n + 1);
                assert(t1 =~= t0.push(k));
                assert forall|k2: ResourceKey| #[trigger] t1.contains(k2) <==> (t0.contains(k2) || k2 == k) by {
                    if t1.contains(k2) {
                        let j = choose|j: int| 0 <= j < t1.len() && t1[j] == k2;
                        if j < t0.len() {
                            assert(t0[j] == k2);
                        }
                    }
                    if t0.contains(k2) {
                        let j = choose|j: int| 0 <= j < t0.len() && t0[j] == k2;
                        assert(t1[j] == k2);
                    }
                    if k2 == k {
                        assert(t1[n as int] == k2);
                    }
                }
                if t0.contains(k) && before.accesses().dom().contains(k) {
                    lemma_without_query_idempotent(old_self.accesses()[k], query_id);
                }
            }
            n = n + 1;
        }
        proof {
            assert(keys@.take(keys@.len() as int) =~= keys@);
        }
    }

    /// Remove the accesses of `query_id` from the entry of `k`, dropping the
    /// entry when it becomes empty.
    fn strip_query(&mut self, k: ResourceKey, query_id: u64)
        requires
            old(self).wf(),
        ensures
            final(self).wf(),
            final(self).accesses().dom().contains(k) <==> (old(self).accesses().dom().contains(k)
                && without_query(old(self).accesses()[k], query_id).len() > 0),
            final(self).accesses().dom().contains(k) ==> final(self).accesses()[k] == without_query(
                old(self).accesses()[k],
                query_id,
            ),
            forall|k2: ResourceKey|
                k2 != k ==> (#[trigger] final(self).accesses().dom().contains(k2)
                    == old(self).accesses().dom().contains(k2)),
            forall|k2: ResourceKey|
                k2 != k && old(self).accesses().dom().contains(k2) ==> #[trigger] final(self).accesses()[k2]
                    == old(self).accesses()[k2],
    {
        let ghost old_self = *self;
        match self.find_entry(k) {
            None => {},
            Some(i) => {
                proof {
                    old_self.lemma_entry(i as int);
                }
                let (ek, v) = self.entries.remove(i);
                let kept = retain_other_queries(&v, query_id);
                if kept.len() > 0 {
                    self.entries.insert(i, (ek, kept));
                    proof {
                        assert(self.entries@ =~= old_self.entries@.update(
                            i as int,
                            (ek, kept),
                        ));
                        self.lemma_entry(i as int);
                        assert forall|k2: ResourceKey|
                            #![trigger self.accesses().dom().contains(k2)]
                            #![trigger self.accesses()[k2]]
                            k2 != k implies (self.accesses().dom().contains(k2)
                            == old_self.accesses().dom().contains(k2)) && (
                        old_self.accesses().dom().contains(k2) ==> self.accesses()[k2]
                            == old_self.accesses()[k2]) by {
                            if old_self.accesses().dom().contains(k2) {
                                let j = old_self.entry_index(k2);
                                assert(j != i);
                                assert(self.entries@[j] == old_self.entries@[j]);
                                old_self.lemma_entry(j);
                                self.lemma_entry(j);
                            } else {
                                assert forall|j: int| 0 <= j < self.entries@.len() implies
                                    self.entries@[j].0 != k2 by {
                                    if old_self.entries@[j].0 == k2 {
                                        assert(old_self.has_entry(k2));
                                    }
                                }
                                self.lemma_absent(k2);
                            }
                        }
                    }
                } else {
                    proof {
                        assert(self.entries@ =~= old_self.entries@.remove(i as int));
                        assert forall|j: int| 0 <= j < self.entries@.len() implies
                            self.entries@[j].0 != k by {
                            if j < i {
                                assert(old_self.entries@[j].0 != old_self.entries@[i as int].0);
                            } else {
                                assert(self.entries@[j] == old_self.entries@[j + 1]);
                                assert(old_self.entries@[i as int].0 != old_self.entries@[j + 1].0);
                            }
                        }
                        self.lemma_absent(k);
                        assert forall|k2: ResourceKey|
                            #![trigger self.accesses().dom().contains(k2)]
                            #![trigger self.accesses()[k2]]
                            k2 != k implies (self.accesses().dom().contains(k2)
                            == old_self.accesses().dom().contains(k2)) && (
                        old_self.accesses().dom().contains(k2) ==> self.accesses()[k2]
                            == old_self.accesses()[k2]) by {
                            if old_self.accesses().dom().contains(k2) {
                                let j = old_self.entry_index(k2);
                                assert(j != i);
                                old_self.lemma_entry(j);
                                if j < i {
                                    assert(self.entries@[j] == old_self.entries@[j]);
                                    self.lemma_entry(j);
                                } else {
                                    assert(self.entries@[j - 1] == old_self.entries@[j]);
                                    self.lemma_entry(j - 1);
                                }
                            } else {
                                assert forall|j: int| 0 <= j < self.entries@.len() implies
                                    self.entries@[j].0 != k2 by {
                                    let oj = if j < i { j } else { j + 1 };
                                    assert(self.entries@[j] == old_self.entries@[oj]);
                                    if old_self.entries@[oj].0 == k2 {
                                        assert(old_self.has_entry(k2));
                                    }
                                }
                                self.lemma_absent(k2);
                            }
                        }
                    }
                }
            },
        }
    }

    /// Check if a resource can be acquired with the given access type.
    pub fn can_acquire_resource(&self, key: ResourceKey, access_type: AccessType) -> (r: bool)
        requires
            self.wf(),
        ensures
            r == can_acquire_spec(self.accesses(), key, access_type),
    {
        match self.find_entry(key) {
            None => true,
            Some(i) => {
                proof {
                    self.lemma_entry(i as int);
                }
                let accs = &self.entries[i].1;
                let mut j: usize = 0;
                while j < accs.len()
                    invariant
                        j <= accs@.len(),
                        self.accesses().dom().contains(key),
                        self.accesses()[key] == accs@,
                        forall|m: int|
                            0 <= m < j ==> (access_type == AccessType::Read && accs@[m].access_type
                                == AccessType::Read),
                    decreases accs@.len() - j,
                {
                    match (access_type, accs[j].access_type) {
                        (AccessType::Read, AccessType::Read) => {},
                        _ => {
                            assert(self.accesses()[key][j as int] == accs@[j as int]);
                            return false;
                        },
                    }
                    j = j + 1;
                }
                true
            },
        }
    }
}

/// Copy the accesses of `v` that do not belong to query `query_id`.
fn retain_other_queries(v: &Vec<ResourceAccess>, query_id: u64) -> (r: Vec<ResourceAccess>)
    ensures
        r@ == without_query(v@, query_id),
{
    let mut r: Vec<ResourceAccess> = Vec::new();
    let mut j: usize = 0;
    while j < v.len()
        invariant
            j <= v@.len(),
            r@ == without_query(v@.take(j as int), query_id),
        decreases v@.len() - j,
    {
        proof {
            assert(v@.take(j + 1).drop_last() =~= v@.take(j as int));
        }
        if v[j].query_id != query_id {
            r.push(v[j]);
        }
        j = j + 1;
    }
    proof {
        assert(v@.take(v@.len() as int) =~= v@);
    }
    r
}

/// Removing the accesses of a query twice removes nothing more.
pub proof fn lemma_without_query_idempotent(s: Seq<ResourceAccess>, qid: u64)
    ensures
        without_query(without_query(s, qid), qid) == without_query(s, qid),
    decreases s.len(),
{
    if s.len() > 0 {
        lemma_without_query_idempotent(s.drop_last(), qid);
        if s.last().query_id != qid {
            let w = without_query(s.drop_last(), qid);
            assert(w.push(s.last()).drop_last() =~= w);
        }
    }
}

} // verus!
