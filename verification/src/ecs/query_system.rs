//! Query system for component access: acquires the locks of several
//! components at once, in a fixed order, so that queries cannot deadlock.
//!
//! A query is built from read and write requests. Acquiring it registers one
//! access per distinct (entity, component type) pair; a write access excludes
//! every other access to the same pair, a read access only excludes writes.
//! Releasing the acquired resources removes the query's accesses again.

use vstd::prelude::*;

use crate::ecs::access_table::{
    ResourceAccess, ResourceKey, accesses_or_empty, can_acquire_spec, key_equal, plan_has_key,
    plan_keys_distinct, sorted_set_of, sorted_unique_keys, strictly_sorted, without_query,
    lemma_strictly_sorted_distinct,
};
use crate::ecs::world::{Component, Entity, World, entities_of_type, component_type_key};

verus! {

/// Unique identifier for a query request.
pub type QueryId = u64;

/// Represents the type of access needed for a component.
#[derive(Debug, Clone, Copy, PartialEq, Eq, Structural)]
pub enum AccessType {
    Read,
    Write,
}

/// A request for accessing specific components on specific entities.
#[derive(Debug, Clone, PartialEq, Eq)]
pub struct ComponentAccessRequest {
    /// Numeric key of the component type.
    pub type_id: u64,
    /// Entities on which the component access is requested.
    pub entities: Vec<Entity>,
    /// Type of access needed for the component.
    pub access_type: AccessType,
}

/// A query builder for specifying component access requirements.
#[derive(Debug, Clone, PartialEq, Eq)]
pub struct ComponentQuery {
    /// Component access requests, in the order they were added.
    pub requests: Vec<ComponentAccessRequest>,
}

/// The resource keys of one request: its entities, each with the request's type.
pub open spec fn request_keys(r: ComponentAccessRequest) -> Seq<ResourceKey> {
    Seq::new(r.entities@.len(), |j: int| (r.entities@[j], r.type_id))
}

/// The resource keys of a list of requests, request by request, in order.
pub open spec fn keys_of(reqs: Seq<ComponentAccessRequest>) -> Seq<ResourceKey>
    decreases reqs.len(),
{
    if reqs.len() == 0 {
        Seq::empty()
    } else {
        keys_of(reqs.drop_last()) + request_keys(reqs.last())
    }
}

/// Whether request `r` asks for key `k`.
pub open spec fn request_covers(r: ComponentAccessRequest, k: ResourceKey) -> bool {
    r.type_id == k.1 && r.entities@.contains(k.0)
}

/// The access type with which a query takes key `k`: that of the first
/// request asking for `k`, and a read when none does.
pub open spec fn access_for(reqs: Seq<ComponentAccessRequest>, k: ResourceKey) -> AccessType
    decreases reqs.len(),
{
    if reqs.len() == 0 {
        AccessType::Read
    } else if request_covers(reqs[0], k) {
        reqs[0].access_type
    } else {
        access_for(reqs.drop_first(), k)
    }
}

/// Every key names a component the world records: the entity carries a
/// component of that type.
pub open spec fn keys_valid(keys: Seq<ResourceKey>, components: Seq<(Entity, u64)>) -> bool {
    forall|k: ResourceKey| keys.contains(k) ==> components.contains(k)
}

/// Every key can be taken, with the access type the requests ask for.
pub open spec fn keys_acquirable(
    m: Map<ResourceKey, Seq<ResourceAccess>>,
    reqs: Seq<ComponentAccessRequest>,
    keys: Seq<ResourceKey>,
) -> bool {
    forall|k: ResourceKey| keys.contains(k) ==> can_acquire_spec(m, k, access_for(reqs, k))
}

/// `new` holds `old` with one more access of query `qid` on every key of
/// `keys`, with the access type the requests ask for; other keys are untouched.
pub open spec fn registered(
    old: Map<ResourceKey, Seq<ResourceAccess>>,
    new: Map<ResourceKey, Seq<ResourceAccess>>,
    reqs: Seq<ComponentAccessRequest>,
    keys: Seq<ResourceKey>,
    qid: u64,
) -> bool {
    &&& forall|k: ResourceKey|
        keys.contains(k) ==> new.dom().contains(k) && new[k] == accesses_or_empty(old, k).push(
            ResourceAccess { query_id: qid, access_type: access_for(reqs, k) },
        )
    &&& forall|k: ResourceKey|
        !keys.contains(k) ==> (new.dom().contains(k) == old.dom().contains(k)) && (
        old.dom().contains(k) ==> new[k] == old[k])
}

/// `new` is `old` without the accesses of query `qid` on the keys of `keys`;
/// keys left without accesses disappear, other keys are untouched.
pub open spec fn released(
    old: Map<ResourceKey, Seq<ResourceAccess>>,
    new: Map<ResourceKey, Seq<ResourceAccess>>,
    keys: Seq<ResourceKey>,
    qid: u64,
) -> bool {
    &&& forall|k: ResourceKey|
        keys.contains(k) ==> (new.dom().contains(k) <==> (old.dom().contains(k)
            && without_query(old[k], qid).len() > 0))
    &&& forall|k: ResourceKey|
        keys.contains(k) && new.dom().contains(k) ==> new[k] == without_query(old[k], qid)
    &&& forall|k: ResourceKey|
        !keys.contains(k) ==> (new.dom().contains(k) == old.dom().contains(k)) && (
        old.dom().contains(k) ==> new[k] == old[k])
}

/// The successor of `x`, wrapping around after `u64::MAX`.
pub open spec fn next_id(x: u64) -> u64 {
    if x < u64::MAX {
        (x + 1) as u64
    } else {
        0u64
    }
}

proof fn lemma_keys_of_push(reqs: Seq<ComponentAccessRequest>, n: int)
    requires
        0 <= n < reqs.len(),
    ensures
        keys_of(reqs.take(n + 1)) == keys_of(reqs.take(n)) + request_keys(reqs[n]),
{
    assert(reqs.take(n + 1).drop_last() =~= reqs.take(n));
}


/// No access recorded in `m` belongs to query `qid`.
pub open spec fn query_absent(m: Map<ResourceKey, Seq<ResourceAccess>>, qid: u64) -> bool {
    forall|k: ResourceKey, j: int|
        m.dom().contains(k) && 0 <= j < m[k].len() ==> (#[trigger] m[k][j]).query_id != qid
}

proof fn lemma_without_query_absent(s: Seq<ResourceAccess>, qid: u64)
    requires
        forall|j: int| 0 <= j < s.len() ==> (#[trigger] s[j]).query_id != qid,
    ensures
        without_query(s, qid) == s,
    decreases s.len(),
{
    if s.len() > 0 {
        lemma_without_query_absent(s.drop_last(), qid);
        assert(s.drop_last().push(s.last()) =~= s);
    }
}

proof fn lemma_without_query_push_own(s: Seq<ResourceAccess>, a: ResourceAccess)
    ensures
        without_query(s.push(a), a.query_id) == without_query(s, a.query_id),
{
    assert(s.push(a).drop_last() =~= s);
}

/// Releasing what an acquisition took gives back the accesses held before it:
/// when query `qid` held no access before, registering its accesses on `keys`
/// and then releasing them on the same keys leaves the table as it was.
pub proof fn lemma_release_undoes_acquire(
    before: Map<ResourceKey, Seq<ResourceAccess>>,
    during: Map<ResourceKey, Seq<ResourceAccess>>,
    after: Map<ResourceKey, Seq<ResourceAccess>>,
    reqs: Seq<ComponentAccessRequest>,
    keys: Seq<ResourceKey>,
    qid: u64,
)
    requires
        query_absent(before, qid),
        forall|k: ResourceKey| before.dom().contains(k) ==> before[k].len() > 0,
        registered(before, during, reqs, keys, qid),
        released(during, after, keys, qid),
    ensures
        after == before,
{
    assert forall|k: ResourceKey| #[trigger] after.dom().contains(k) <==> before.dom().contains(k) by {
        if keys.contains(k) {
            let a = ResourceAccess { query_id: qid, access_type: access_for(reqs, k) };
            lemma_without_query_push_own(accesses_or_empty(before, k), a);
            if before.dom().contains(k) {
                assert forall|j: int| 0 <= j < before[k].len() implies (#[trigger] before[k][j]).query_id
                    != qid by {}
                lemma_without_query_absent(before[k], qid);
            } else {
                assert(without_query(Seq::<ResourceAccess>::empty(), qid).len() == 0);
            }
        }
    }
    assert forall|k: ResourceKey| after.dom().contains(k) implies after[k] == before[k] by {
        if keys.contains(k) {
            let a = ResourceAccess { query_id: qid, access_type: access_for(reqs, k) };
            lemma_without_query_push_own(accesses_or_empty(before, k), a);
            assert forall|j: int| 0 <= j < before[k].len() implies (#[trigger] before[k][j]).query_id
                != qid by {}
            lemma_without_query_absent(before[k], qid);
        }
    }
    assert(after =~= before);
}

/// A query that waits on another one: while query `qid` holds a write on a
/// resource that the waiting query asks for, the waiting query cannot take
/// its resources; once `qid` has released what it took, the waiting query can
/// take them exactly as it could before `qid` registered.
pub proof fn lemma_waiting_query_proceeds_after_release(
    before: Map<ResourceKey, Seq<ResourceAccess>>,
    during: Map<ResourceKey, Seq<ResourceAccess>>,
    after: Map<ResourceKey, Seq<ResourceAccess>>,
    reqs: Seq<ComponentAccessRequest>,
    keys: Seq<ResourceKey>,
    qid: u64,
    waiting_reqs: Seq<ComponentAccessRequest>,
    waiting_keys: Seq<ResourceKey>,
)
    requires
        query_absent(before, qid),
        forall|k: ResourceKey| before.dom().contains(k) ==> before[k].len() > 0,
        registered(before, during, reqs, keys, qid),
        released(during, after, keys, qid),
    ensures
        (exists|k: ResourceKey|
            keys.contains(k) && waiting_keys.contains(k) && access_for(reqs, k) == AccessType::Write)
            ==> !keys_acquirable(during, waiting_reqs, waiting_keys),
        keys_acquirable(after, waiting_reqs, waiting_keys) == keys_acquirable(
            before,
            waiting_reqs,
            waiting_keys,
        ),
{
    if exists|k: ResourceKey|
        keys.contains(k) && waiting_keys.contains(k) && access_for(reqs, k) == AccessType::Write {
        let k = choose|k: ResourceKey|
            keys.contains(k) && waiting_keys.contains(k) && access_for(reqs, k) == AccessType::Write;
        lemma_write_excludes(before, during, reqs, keys, qid, k, access_for(waiting_reqs, k));
    }
    lemma_release_undoes_acquire(before, during, after, reqs, keys, qid);
}

/// A held write access excludes every other access to the same resource: once
/// a query has registered a write on `k`, no query can take `k` until it is
/// released.
pub proof fn lemma_write_excludes(
    before: Map<ResourceKey, Seq<ResourceAccess>>,
    during: Map<ResourceKey, Seq<ResourceAccess>>,
    reqs: Seq<ComponentAccessRequest>,
    keys: Seq<ResourceKey>,
    qid: u64,
    k: ResourceKey,
    at: AccessType,
)
    requires
        registered(before, during, reqs, keys, qid),
        keys.contains(k),
        access_for(reqs, k) == AccessType::Write,
    ensures
        !can_acquire_spec(during, k, at),
{
    let n = accesses_or_empty(before, k).len();
    assert(during[k][n as int].access_type == AccessType::Write);
}

/// Reads share: a resource held only by readers can be taken by another
/// reader, and a reader registering on it keeps it open to further readers.
pub proof fn lemma_reads_share(
    before: Map<ResourceKey, Seq<ResourceAccess>>,
    during: Map<ResourceKey, Seq<ResourceAccess>>,
    reqs: Seq<ComponentAccessRequest>,
    keys: Seq<ResourceKey>,
    qid: u64,
    k: ResourceKey,
)
    requires
        can_acquire_spec(before, k, AccessType::Read),
        registered(before, during, reqs, keys, qid),
        keys.contains(k) ==> access_for(reqs, k) == AccessType::Read,
    ensures
        can_acquire_spec(during, k, AccessType::Read),
{
}

impl ComponentQuery {
    /// Create a new empty query.
    pub fn new() -> (q: Self)
        ensures
            q.requests@ == Seq::<ComponentAccessRequest>::empty(),
    {
        ComponentQuery { requests: Vec::new() }
    }

    /// Add a request of the given access type for the component type
    /// `type_id` on `entities`; a request without entities is not added.
    pub fn with_request(self, type_id: u64, entities: Vec<Entity>, access_type: AccessType) -> (q:
        Self)
        ensures
            entities@.len() == 0 ==> q.requests@ == self.requests@,
            entities@.len() > 0 ==> q.requests@ == self.requests@.push(
                ComponentAccessRequest { type_id, entities, access_type },
            ),
    {
        let mut q = self;
        if entities.len() > 0 {
            q.requests.push(ComponentAccessRequest { type_id, entities, access_type });
        }
        q
    }

    /// Add a read request for the component type `type_id` on specific entities.
    pub fn read_type(self, type_id: u64, entities: Vec<Entity>) -> (q: Self)
        ensures
            entities@.len() == 0 ==> q.requests@ == self.requests@,
            entities@.len() > 0 ==> q.requests@ == self.requests@.push(
                ComponentAccessRequest { type_id, entities, access_type: AccessType::Read },
            ),
    {
        self.with_request(type_id, entities, AccessType::Read)
    }

    /// Add a write request for the component type `type_id` on specific entities.
    pub fn write_type(self, type_id: u64, entities: Vec<Entity>) -> (q: Self)
        ensures
            entities@.len() == 0 ==> q.requests@ == self.requests@,
            entities@.len() > 0 ==> q.requests@ == self.requests@.push(
                ComponentAccessRequest { type_id, entities, access_type: AccessType::Write },
            ),
    {
        self.with_request(type_id, entities, AccessType::Write)
    }

    /// Add a read request for the component type `T` on specific entities.
    pub fn read<T: Component + 'static>(self, entities: Vec<Entity>) -> (q: Self)
        ensures
            entities@.len() == 0 ==> q.requests@ == self.requests@,
            entities@.len() > 0 ==> exists|t: u64|
                q.requests@ == self.requests@.push(
                    ComponentAccessRequest { type_id: t, entities, access_type: AccessType::Read },
                ),
    {
        let t = component_type_key::<T>();
        self.read_type(t, entities)
    }

    /// Add a write request for the component type `T` on specific entities.
    pub fn write<T: Component + 'static>(self, entities: Vec<Entity>) -> (q: Self)
        ensures
            entities@.len() == 0 ==> q.requests@ == self.requests@,
            entities@.len() > 0 ==> exists|t: u64|
                q.requests@ == self.requests@.push(
                    ComponentAccessRequest { type_id: t, entities, access_type: AccessType::Write },
                ),
    {
        let t = component_type_key::<T>();
        self.write_type(t, entities)
    }

    /// Add a read request for the component type `type_id` on all entities that have it.
    pub fn read_all_type(self, type_id: u64, world: &World) -> (q: Self)
        ensures
            ({
                let es = entities_of_type(world.components_spec(), type_id);
                &&& es.len() == 0 ==> q.requests@ == self.requests@
                &&& es.len() > 0 ==> q.requests@.len() == self.requests@.len() + 1
                    && q.requests@.drop_last() == self.requests@
                    && q.requests@.last().type_id == type_id
                    && q.requests@.last().entities@ == es
                    && q.requests@.last().access_type == AccessType::Read
            }),
    {
        let entities = world.entities_with_component(type_id);
        let q = self.with_request(type_id, entities, AccessType::Read);
        proof {
            if q.requests@.len() > self.requests@.len() {
                assert(q.requests@.drop_last() =~= self.requests@);
            }
        }
        q
    }

    /// Add a write request for the component type `type_id` on all entities that have it.
    pub fn write_all_type(self, type_id: u64, world: &World) -> (q: Self)
        ensures
            ({
                let es = entities_of_type(world.components_spec(), type_id);
                &&& es.len() == 0 ==> q.requests@ == self.requests@
                &&& es.len() > 0 ==> q.requests@.len() == self.requests@.len() + 1
                    && q.requests@.drop_last() == self.requests@
                    && q.requests@.last().type_id == type_id
                    && q.requests@.last().entities@ == es
                    && q.requests@.last().access_type == AccessType::Write
            }),
    {
        let entities = world.entities_with_component(type_id);
        let q = self.with_request(type_id, entities, AccessType::Write);
        proof {
            if q.requests@.len() > self.requests@.len() {
                assert(q.requests@.drop_last() =~= self.requests@);
            }
        }
        q
    }

    /// Add a read request for the component type `T` on all entities that have it.
    pub fn read_all<T: Component + 'static>(self, world: &World) -> (q: Self)
        ensures
            exists|t: u64|
                #![trigger entities_of_type(world.components_spec(), t)]
                {
                    let es = entities_of_type(world.components_spec(), t);
                    &&& es.len() == 0 ==> q.requests@ == self.requests@
                    &&& es.len() > 0 ==> q.requests@.len() == self.requests@.len() + 1
                        && q.requests@.drop_last() == self.requests@
                        && q.requests@.last().type_id == t
                        && q.requests@.last().entities@ == es
                        && q.requests@.last().access_type == AccessType::Read
                },
    {
        let t = component_type_key::<T>();
        let q = self.read_all_type(t, world);
        proof {
            let _ = entities_of_type(world.components_spec(), t);
        }
        q
    }

    /// Add a write request for the component type `T` on all entities that have it.
    pub fn write_all<T: Component + 'static>(self, world: &World) -> (q: Self)
        ensures
            exists|t: u64|
                #![trigger entities_of_type(world.components_spec(), t)]
                {
                    let es = entities_of_type(world.components_spec(), t);
                    &&& es.len() == 0 ==> q.requests@ == self.requests@
                    &&& es.len() > 0 ==> q.requests@.len() == self.requests@.len() + 1
                        && q.requests@.drop_last() == self.requests@
                        && q.requests@.last().type_id == t
                        && q.requests@.last().entities@ == es
                        && q.requests@.last().access_type == AccessType::Write
                },
    {
        let t = component_type_key::<T>();
        let q = self.write_all_type(t, world);
        proof {
            let _ = entities_of_type(world.components_spec(), t);
        }
        q
    }

    /// Get all (entity, component type) pairs that this query would access,
    /// request by request, in order.
    pub fn get_resource_keys(&self) -> (keys: Vec<ResourceKey>)
        ensures
            keys@ == keys_of(self.requests@),
    {
        let mut keys: Vec<ResourceKey> = Vec::new();
        let mut i: usize = 0;
        while i < self.requests.len()
            invariant
                i <= self.requests@.len(),
                keys@ == keys_of(self.requests@.take(i as int)),
            decreases self.requests@.len() - i,
        {
            let request = &self.requests[i];
            let mut j: usize = 0;
            while j < request.entities.len()
                invariant
                    j <= request.entities@.len(),
                    keys@ == keys_of(self.requests@.take(i as int)) + request_keys(*request).take(
                        j as int,
                    ),
                decreases request.entities@.len() - j,
            {
                keys.push((request.entities[j], request.type_id));
                proof {
                    assert(request_keys(*request).take(j + 1) =~= request_keys(*request).take(
                        j as int,
                    ).push((request.entities@[j as int], request.type_id)));
                }
                j = j + 1;
            }
            proof {
                assert(request_keys(*request).take(j as int) =~= request_keys(*request));
                lemma_keys_of_push(self.requests@, i as int);
            }
            i = i + 1;
        }
        proof {
            assert(self.requests@.take(self.requests@.len() as int) =~= self.requests@);
        }
        keys
    }

    /// The access type with which this query takes `key`: that of the first
    /// request asking for it, a read when none does.
    pub fn access_type_for(&self, key: ResourceKey) -> (r: AccessType)
        ensures
            r == access_for(self.requests@, key),
    {
        let mut i: usize = 0;
        proof {
            assert(self.requests@.skip(0) =~= self.requests@);
        }
        while i < self.requests.len()
            invariant
                i <= self.requests@.len(),
                access_for(self.requests@, key) == access_for(self.requests@.skip(i as int), key),
            decreases self.requests@.len() - i,
        {
            let request = &self.requests[i];
            let ghost rest = self.requests@.skip(i as int);
            proof {
                assert(rest[0] == *request);
                assert(rest.drop_first() =~= self.requests@.skip(i + 1));
            }
            if request.type_id == key.1 {
                let mut j: usize = 0;
                while j < request.entities.len()
                    invariant
                        j <= request.entities@.len(),
                        rest.len() > 0,
                        rest[0] == *request,
                        request.type_id == key.1,
                        access_for(self.requests@, key) == access_for(rest, key),
                        forall|m: int| 0 <= m < j ==> request.entities@[m] != key.0,
                    decreases request.entities@.len() - j,
                {
                    if request.entities[j].0 == key.0.0 {
                        proof {
                            assert(request.entities@[j as int] == key.0);
                            assert(request.entities@.contains(key.0));
                            assert(request_covers(rest[0], key));
                        }
                        return request.access_type;
                    }
                    j = j + 1;
                }
                proof {
                    assert(!request.entities@.contains(key.0));
                }
            }
            proof {
                assert(!request_covers(rest[0], key));
            }
            i = i + 1;
        }
        AccessType::Read
    }

    /// The plan of a query for sorted keys: each key with its access type.
    fn access_plan(&self, keys: &Vec<ResourceKey>) -> (plan: Vec<(ResourceKey, AccessType)>)
        ensures
            plan@.len() == keys@.len(),
            forall|i: int|
                0 <= i < keys@.len() ==> #[trigger] plan@[i] == (keys@[i], access_for(
                    self.requests@,
                    keys@[i],
                )),
    {
        let mut plan: Vec<(ResourceKey, AccessType)> = Vec::new();
        let mut i: usize = 0;
        while i < keys.len()
            invariant
                i <= keys@.len(),
                plan@.len() == i,
                forall|m: int|
                    0 <= m < i ==> #[trigger] plan@[m] == (keys@[m], access_for(
                        self.requests@,
                        keys@[m],
                    )),
            decreases keys@.len() - i,
        {
            let at = self.access_type_for(keys[i]);
            plan.push((keys[i], at));
            i = i + 1;
        }
        plan
    }
}

impl Default for ComponentQuery {
    /// Create a default (empty) component query.
    fn default() -> (q: Self)
        ensures
            q.requests@ == Seq::<ComponentAccessRequest>::empty(),
    {
        ComponentQuery::new()
    }
}

/// Result of successfully acquiring all requested resources. Hand it back to
/// the world with `release` to give up the accesses.
pub struct AcquiredResources {
    query_id: QueryId,
    resource_keys: Vec<ResourceKey>,
}

impl AcquiredResources {
    /// The identifier of the query that holds these resources.
    pub closed spec fn query_id_spec(&self) -> u64 {
        self.query_id
    }

    /// The keys of the resources held, in the order they were taken.
    pub closed spec fn resource_keys_spec(&self) -> Seq<ResourceKey> {
        self.resource_keys@
    }

    /// The identifier of the query that holds these resources.
    pub fn query_id(&self) -> (r: QueryId)
        ensures
            r == self.query_id_spec(),
    {
        self.query_id
    }

    /// The keys of the resources held, in the order they were taken.
    pub fn resource_keys(&self) -> (r: &Vec<ResourceKey>)
        ensures
            r@ == self.resource_keys_spec(),
    {
        &self.resource_keys
    }
}

/// A query waiting for its resources: it has its identifier and the sorted
/// keys it needs, and is retried until every key can be taken.
pub struct PendingQuery {
    query: ComponentQuery,
    query_id: QueryId,
    keys: Vec<ResourceKey>,
}

impl PendingQuery {
    #[verifier::type_invariant]
    spec fn inv(self) -> bool {
        sorted_set_of(self.keys@, keys_of(self.query.requests@))
    }

    /// The requests of the waiting query.
    pub closed spec fn requests_spec(&self) -> Seq<ComponentAccessRequest> {
        self.query.requests@
    }

    /// The identifier of the waiting query.
    pub closed spec fn query_id_spec(&self) -> u64 {
        self.query_id
    }

    /// The keys the query needs, once each, in increasing order.
    pub closed spec fn keys_spec(&self) -> Seq<ResourceKey> {
        self.keys@
    }

    /// The identifier of the waiting query.
    pub fn query_id(&self) -> (r: QueryId)
        ensures
            r == self.query_id_spec(),
    {
        self.query_id
    }

    /// The keys the query needs, once each, in increasing order.
    pub fn keys(&self) -> (r: &Vec<ResourceKey>)
        ensures
            r@ == self.keys_spec(),
    {
        &self.keys
    }

    /// A pending query with identifier `query_id`, needing the keys of `query`.
    pub fn new(query: ComponentQuery, query_id: QueryId) -> (p: Self)
        ensures
            p.requests_spec() == query.requests@,
            p.query_id_spec() == query_id,
            sorted_set_of(p.keys_spec(), keys_of(query.requests@)),
    {
        let resource_keys = query.get_resource_keys();
        let keys = sorted_unique_keys(&resource_keys);
        PendingQuery { query, query_id, keys }
    }
}

/// Extension trait for [`World`] to support query-based access.
pub trait WorldQueryExt {
    /// Try to acquire all resources specified in the query without blocking.
    fn try_acquire_query_immediate(&mut self, query: ComponentQuery) -> Option<
        AcquiredResources,
    >;

    /// Start acquiring the resources of a query: hands out its identifier and
    /// checks that every requested component exists. The pending query is then
    /// retried with `poll_pending_query` until it succeeds.
    fn begin_acquire_query(&mut self, query: ComponentQuery) -> Option<PendingQuery>;

    /// One attempt at taking every resource of a pending query at once.
    fn poll_pending_query(&mut self, pending: &PendingQuery) -> Option<AcquiredResources>;

    /// Give back the resources of a query, releasing its accesses.
    fn release(&mut self, resources: AcquiredResources);
}

impl World {
    /// Check that every key names a component the world records.
    fn validate_keys(&self, keys: &Vec<ResourceKey>) -> (r: bool)
        ensures
            r == keys_valid(keys@, self.components_spec()),
    {
        let mut i: usize = 0;
        while i < keys.len()
            invariant
                i <= keys@.len(),
                forall|m: int| 0 <= m < i ==> self.components_spec().contains(#[trigger] keys@[m]),
            decreases keys@.len() - i,
        {
            if !self.has_component_of_type(keys[i].0, keys[i].1) {
                proof {
                    assert(keys@.contains(keys@[i as int]));
                }
                return false;
            }
            i = i + 1;
        }
        true
    }

    /// Register the accesses of `query` on the sorted keys `keys` when all of
    /// them can be taken.
    fn acquire_sorted(&mut self, query: &ComponentQuery, query_id: u64, keys: &Vec<ResourceKey>) -> (ok:
        bool)
        requires
            strictly_sorted(keys@),
        ensures
            final(self).next_entity_spec() == old(self).next_entity_spec(),
            final(self).next_query_id_spec() == old(self).next_query_id_spec(),
            final(self).components_spec() == old(self).components_spec(),
            ok == keys_acquirable(old(self).accesses(), query.requests@, keys@),
            ok ==> registered(
                old(self).accesses(),
                final(self).accesses(),
                query.requests@,
                keys@,
                query_id,
            ),
            !ok ==> final(self).accesses() == old(self).accesses(),
    {
        let plan = query.access_plan(keys);
        proof {
            lemma_strictly_sorted_distinct(keys@);
            assert forall|i: int, j: int| 0 <= i < j < plan@.len() implies (#[trigger] plan@[i]).0
                != (#[trigger] plan@[j]).0 by {
                assert(keys@[i] != keys@[j]);
            }
            assert forall|k: ResourceKey| plan_has_key(plan@, k) <==> keys@.contains(k) by {
                if plan_has_key(plan@, k) {
                    let i = choose|i: int| 0 <= i < plan@.len() && (#[trigger] plan@[i]).0 == k;
                    assert(keys@[i] == k);
                }
                if keys@.contains(k) {
                    let i = choose|i: int| 0 <= i < keys@.len() && keys@[i] == k;
                    assert(plan@[i].0 == k);
                }
            }
        }
        let ghost old_self = *self;
        let ok = self.try_register_accesses(query_id, &plan);
        proof {
            let reqs = query.requests@;
            assert(keys_acquirable(old_self.accesses(), reqs, keys@) <==> forall|i: int|
                0 <= i < plan@.len() ==> can_acquire_spec(
                    old_self.accesses(),
                    (#[trigger] plan@[i]).0,
                    plan@[i].1,
                )) by {
                if keys_acquirable(old_self.accesses(), reqs, keys@) {
                    assert forall|i: int| 0 <= i < plan@.len() implies can_acquire_spec(
                        old_self.accesses(),
                        (#[trigger] plan@[i]).0,
                        plan@[i].1,
                    ) by {
                        assert(keys@.contains(keys@[i]));
                    }
                }
                if forall|i: int|
                    0 <= i < plan@.len() ==> can_acquire_spec(
                        old_self.accesses(),
                        (#[trigger] plan@[i]).0,
                        plan@[i].1,
                    ) {
                    assert forall|k: ResourceKey| keys@.contains(k) implies can_acquire_spec(
                        old_self.accesses(),
                        k,
                        access_for(reqs, k),
                    ) by {
                        let i = choose|i: int| 0 <= i < keys@.len() && keys@[i] == k;
                        assert(plan@[i].0 == k);
                    }
                }
            }
            if ok {
                assert forall|k: ResourceKey| keys@.contains(k) implies self.accesses().dom().contains(k)
                    && self.accesses()[k] == accesses_or_empty(old_self.accesses(), k).push(
                    ResourceAccess { query_id, access_type: access_for(reqs, k) },
                ) by {
                    let i = choose|i: int| 0 <= i < keys@.len() && keys@[i] == k;
                    assert(plan@[i].0 == k);
                }
            }
        }
        ok
    }
}

impl WorldQueryExt for World {
    /// Try to acquire all resources specified in the query without blocking.
    /// The query always consumes a query identifier. An empty query succeeds;
    /// otherwise it fails when it names a component that the world does not
    /// record for that entity, or when one of its resources conflicts with an active access. On
    /// success every distinct resource gets one access of this query.
    fn try_acquire_query_immediate(&mut self, query: ComponentQuery) -> (r: Option<
        AcquiredResources,
    >)
        ensures
            final(self).next_query_id_spec() == next_id(old(self).next_query_id_spec()),
            final(self).next_entity_spec() == old(self).next_entity_spec(),
            final(self).components_spec() == old(self).components_spec(),
            r is Some <==> (keys_valid(keys_of(query.requests@), old(self).components_spec())
                && keys_acquirable(
                old(self).accesses(),
                query.requests@,
                keys_of(query.requests@),
            )),
            r matches Some(res) ==> res.query_id_spec() == old(self).next_query_id_spec()
                && sorted_set_of(res.resource_keys_spec(), keys_of(query.requests@))
                && registered(
                old(self).accesses(),
                final(self).accesses(),
                query.requests@,
                keys_of(query.requests@),
                old(self).next_query_id_spec(),
            ),
            r is None ==> final(self).accesses() == old(self).accesses(),
    {
        let query_id = self.take_query_id();
        let resource_keys = query.get_resource_keys();
        if resource_keys.len() == 0 {
            proof {
                assert(final(self).accesses() =~= old(self).accesses());
            }
            return Some(AcquiredResources { query_id, resource_keys: Vec::new() });
        }
        let sorted = sorted_unique_keys(&resource_keys);
        if !self.validate_keys(&sorted) {
            proof {
                assert(!keys_valid(resource_keys@, old(self).components_spec()));
            }
            return None;
        }
        proof {
            assert(keys_valid(resource_keys@, old(self).components_spec()));
        }
        let ghost before = *self;
        if self.acquire_sorted(&query, query_id, &sorted) {
            proof {
                assert(keys_acquirable(before.accesses(), query.requests@, resource_keys@));
            }
            Some(AcquiredResources { query_id, resource_keys: sorted })
        } else {
            proof {
                assert(!keys_acquirable(before.accesses(), query.requests@, resource_keys@)) by {
                    assert(!keys_acquirable(before.accesses(), query.requests@, sorted@));
                }
            }
            None
        }
    }

    /// Start acquiring the resources of a query: the query consumes an
    /// identifier, and is refused when it names a component that the world
    /// does not record for that entity. The accesses themselves are taken by `poll_pending_query`.
    fn begin_acquire_query(&mut self, query: ComponentQuery) -> (r: Option<PendingQuery>)
        ensures
            final(self).next_query_id_spec() == next_id(old(self).next_query_id_spec()),
            final(self).next_entity_spec() == old(self).next_entity_spec(),
            final(self).components_spec() == old(self).components_spec(),
            final(self).accesses() == old(self).accesses(),
            r is Some <==> keys_valid(keys_of(query.requests@), old(self).components_spec()),
            r matches Some(p) ==> p.query_id_spec() == old(self).next_query_id_spec()
                && p.requests_spec() == query.requests@ && sorted_set_of(
                p.keys_spec(),
                keys_of(query.requests@),
            ),
    {
        let query_id = self.take_query_id();
        let resource_keys = query.get_resource_keys();
        let sorted = sorted_unique_keys(&resource_keys);
        if !self.validate_keys(&sorted) {
            proof {
                assert(!keys_valid(resource_keys@, old(self).components_spec()));
            }
            return None;
        }
        proof {
            assert(keys_valid(resource_keys@, old(self).components_spec()));
        }
        Some(PendingQuery { query, query_id, keys: sorted })
    }

    /// One attempt at taking every resource of a pending query at once: it
    /// succeeds exactly when no resource conflicts with an active access, and
    /// then every resource gets one access of this query.
    fn poll_pending_query(&mut self, pending: &PendingQuery) -> (r: Option<AcquiredResources>)
        ensures
            final(self).next_query_id_spec() == old(self).next_query_id_spec(),
            final(self).next_entity_spec() == old(self).next_entity_spec(),
            final(self).components_spec() == old(self).components_spec(),
            r is Some <==> keys_acquirable(
                old(self).accesses(),
                pending.requests_spec(),
                pending.keys_spec(),
            ),
            r matches Some(res) ==> res.query_id_spec() == pending.query_id_spec()
                && res.resource_keys_spec() == pending.keys_spec() && registered(
                old(self).accesses(),
                final(self).accesses(),
                pending.requests_spec(),
                pending.keys_spec(),
                pending.query_id_spec(),
            ),
            r is None ==> final(self).accesses() == old(self).accesses(),
    {
        proof {
            use_type_invariant(pending);
        }
        if self.acquire_sorted(&pending.query, pending.query_id, &pending.keys) {
            let keys = copy_keys(&pending.keys);
            Some(AcquiredResources { query_id: pending.query_id, resource_keys: keys })
        } else {
            None
        }
    }

    /// Give back the resources of a query: its accesses on those resources
    /// are removed, and resources left without accesses are forgotten.
    fn release(&mut self, resources: AcquiredResources)
        ensures
            final(self).next_query_id_spec() == old(self).next_query_id_spec(),
            final(self).next_entity_spec() == old(self).next_entity_spec(),
            final(self).components_spec() == old(self).components_spec(),
            released(
                old(self).accesses(),
                final(self).accesses(),
                resources.resource_keys_spec(),
                resources.query_id_spec(),
            ),
    {
        self.release_accesses(resources.query_id, &resources.resource_keys);
    }
}

/// A copy of a list of keys.
fn copy_keys(keys: &Vec<ResourceKey>) -> (r: Vec<ResourceKey>)
    ensures
        r@ == keys@,
{
    let mut r: Vec<ResourceKey> = Vec::new();
    let mut i: usize = 0;
    while i < keys.len()
        invariant
            i <= keys@.len(),
            r@ == keys@.take(i as int),
        decreases keys@.len() - i,
    {
        r.push(keys[i]);
        proof {
            assert(keys@.take(i + 1) =~= keys@.take(i as int).push(keys@[i as int]));
        }
        i = i + 1;
    }
    proof {
        assert(keys@.take(keys@.len() as int) =~= keys@);
    }
    r
}

} // verus!
