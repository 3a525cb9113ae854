//! Blocking query access to components: a query waits until every resource
//! it names can be taken at once. Unlike the query system, it does not check
//! that the entities it names exist.

use vstd::prelude::*;

use crate::ecs::access_table::{ResourceKey, sorted_set_of};
use crate::ecs::query_system as system;
use crate::ecs::query_system::{PendingQuery, WorldQueryExt as SystemQueryExt, next_id, keys_acquirable, registered, released};
use crate::ecs::world::{Component, Entity, World, component_type_key};

verus! {

/// Unique identifier for a query request.
pub type QueryId = u64;

/// Represents the type of access needed for a component.
#[derive(Debug, Clone, Copy, PartialEq, Eq, Structural)]
pub enum AccessType {
    Read,
    Write,
}

/// A request for accessing specific components on specific entities.
#[derive(Debug, Clone, PartialEq, Eq)]
pub struct ComponentAccessRequest {
    /// Numeric key of the component type.
    pub type_id: u64,
    /// Entities on which the component access is requested.
    pub entities: Vec<Entity>,
    /// Type of access needed for the component.
    pub access_type: AccessType,
}

/// A query builder for specifying component access requirements.
#[derive(Debug, Clone, PartialEq, Eq)]
pub struct ComponentQuery {
    /// Component access requests, in the order they were added.
    pub requests: Vec<ComponentAccessRequest>,
}

/// The access type of the query system that corresponds to `a`.
pub open spec fn system_access(a: AccessType) -> system::AccessType {
    match a {
        AccessType::Read => system::AccessType::Read,
        AccessType::Write => system::AccessType::Write,
    }
}

/// The request of the query system that corresponds to `r`.
pub open spec fn system_request(r: ComponentAccessRequest) -> system::ComponentAccessRequest {
    system::ComponentAccessRequest {
        type_id: r.type_id,
        entities: r.entities,
        access_type: system_access(r.access_type),
    }
}

/// The requests of the query system that correspond to `reqs`, in order.
pub open spec fn system_requests(reqs: Seq<ComponentAccessRequest>) -> Seq<
    system::ComponentAccessRequest,
> {
    reqs.map_values(|r: ComponentAccessRequest| system_request(r))
}

/// The resource keys of one request: its entities, each with the request's type.
pub open spec fn request_keys(r: ComponentAccessRequest) -> Seq<ResourceKey> {
    Seq::new(r.entities@.len(), |j: int| (r.entities@[j], r.type_id))
}

/// The resource keys of a list of requests, request by request, in order.
pub open spec fn keys_of(reqs: Seq<ComponentAccessRequest>) -> Seq<ResourceKey>
    decreases reqs.len(),
{
    if reqs.len() == 0 {
        Seq::empty()
    } else {
        keys_of(reqs.drop_last()) + request_keys(reqs.last())
    }
}

proof fn lemma_keys_of_push(reqs: Seq<ComponentAccessRequest>, n: int)
    requires
        0 <= n < reqs.len(),
    ensures
        keys_of(reqs.take(n + 1)) == keys_of(reqs.take(n)) + request_keys(reqs[n]),
{
    assert(reqs.take(n + 1).drop_last() =~= reqs.take(n));
}

fn to_system_access(a: AccessType) -> (r: system::AccessType)
    ensures
        r == system_access(a),
{
    match a {
        AccessType::Read => system::AccessType::Read,
        AccessType::Write => system::AccessType::Write,
    }
}

impl ComponentQuery {
    /// Create a new empty query.
    pub fn new() -> (q: Self)
        ensures
            q.requests@ == Seq::<ComponentAccessRequest>::empty(),
    {
        ComponentQuery { requests: Vec::new() }
    }

    /// Add a read request for the component type `type_id` on specific
    /// entities; a request without entities is not added.
    pub fn read_type(self, type_id: u64, entities: Vec<Entity>) -> (q: Self)
        ensures
            entities@.len() == 0 ==> q.requests@ == self.requests@,
            entities@.len() > 0 ==> q.requests@ == self.requests@.push(
                ComponentAccessRequest { type_id, entities, access_type: AccessType::Read },
            ),
    {
        let mut q = self;
        if entities.len() > 0 {
            q.requests.push(
                ComponentAccessRequest { type_id, entities, access_type: AccessType::Read },
            );
        }
        q
    }

    /// Add a write request for the component type `type_id` on specific
    /// entities; a request without entities is not added.
    pub fn write_type(self, type_id: u64, entities: Vec<Entity>) -> (q: Self)
        ensures
            entities@.len() == 0 ==> q.requests@ == self.requests@,
            entities@.len() > 0 ==> q.requests@ == self.requests@.push(
                ComponentAccessRequest { type_id, entities, access_type: AccessType::Write },
            ),
    {
        let mut q = self;
        if entities.len() > 0 {
            q.requests.push(
                ComponentAccessRequest { type_id, entities, access_type: AccessType::Write },
            );
        }
        q
    }

    /// Add a read request for the component type `T` on specific entities.
    pub fn read<T: Component + 'static>(self, entities: Vec<Entity>) -> (q: Self)
        ensures
            entities@.len() == 0 ==> q.requests@ == self.requests@,
            entities@.len() > 0 ==> exists|t: u64|
                q.requests@ == self.requests@.push(
                    ComponentAccessRequest { type_id: t, entities, access_type: AccessType::Read },
                ),
    {
        let t = component_type_key::<T>();
        self.read_type(t, entities)
    }

    /// Add a write request for the component type `T` on specific entities.
    pub fn write<T: Component + 'static>(self, entities: Vec<Entity>) -> (q: Self)
        ensures
            entities@.len() == 0 ==> q.requests@ == self.requests@,
            entities@.len() > 0 ==> exists|t: u64|
                q.requests@ == self.requests@.push(
                    ComponentAccessRequest { type_id: t, entities, access_type: AccessType::Write },
                ),
    {
        let t = component_type_key::<T>();
        self.write_type(t, entities)
    }

    /// Get all entity-component pairs that this query would access, request
    /// by request, in order.
    pub fn get_resource_keys(&self) -> (keys: Vec<ResourceKey>)
        ensures
            keys@ == keys_of(self.requests@),
    {
        let mut keys: Vec<ResourceKey> = Vec::new();
        let mut i: usize = 0;
        while i < self.requests.len()
            invariant
                i <= self.requests@.len(),
                keys@ == keys_of(self.requests@.take(i as int)),
            decreases self.requests@.len() - i,
        {
            let request = &self.requests[i];
            let mut j: usize = 0;
            while j < request.entities.len()
                invariant
                    j <= request.entities@.len(),
                    keys@ == keys_of(self.requests@.take(i as int)) + request_keys(*request).take(
                        j as int,
                    ),
                decreases request.entities@.len() - j,
            {
                keys.push((request.entities[j], request.type_id));
                proof {
                    assert(request_keys(*request).take(j + 1) =~= request_keys(*request).take(
                        j as int,
                    ).push((request.entities@[j as int], request.type_id)));
                }
                j = j + 1;
            }
            proof {
                assert(request_keys(*request).take(j as int) =~= request_keys(*request));
                lemma_keys_of_push(self.requests@, i as int);
            }
            i = i + 1;
        }
        proof {
            assert(self.requests@.take(self.requests@.len() as int) =~= self.requests@);
        }
        keys
    }

    /// The same query, expressed with the requests of the query system.
    pub fn into_system_query(self) -> (q: system::ComponentQuery)
        ensures
            q.requests@ == system_requests(self.requests@),
    {
        let ghost orig = self.requests@;
        let mut reqs = self.requests;
        let total: usize = reqs.len();
        proof {
            assert(orig.skip(0) =~= orig);
            assert(system_requests(orig.take(0)) =~= Seq::<system::ComponentAccessRequest>::empty());
        }
        let mut out: Vec<system::ComponentAccessRequest> = Vec::new();
        let mut n: usize = 0;
        while reqs.len() > 0
            invariant
                n <= orig.len(),
                orig.len() == total,
                reqs@ == orig.skip(n as int),
                out@ == system_requests(orig.take(n as int)),
            decreases reqs@.len(),
        {
            let r = reqs.remove(0);
            proof {
                assert(r == orig[n as int]);
                assert(reqs@ =~= orig.skip(n + 1));
                assert(system_requests(orig.take(n + 1)) =~= system_requests(
                    orig.take(n as int),
                ).push(system_request(orig[n as int])));
            }
            let at = to_system_access(r.access_type);
            out.push(
                system::ComponentAccessRequest {
                    type_id: r.type_id,
                    entities: r.entities,
                    access_type: at,
                },
            );
            n = n + 1;
        }
        proof {
            assert(orig.take(n as int) =~= orig);
        }
        system::ComponentQuery { requests: out }
    }
}

impl Default for ComponentQuery {
    /// Create a default (empty) component query.
    fn default() -> (q: Self)
        ensures
            q.requests@ == Seq::<ComponentAccessRequest>::empty(),
    {
        ComponentQuery::new()
    }
}

/// Result of successfully acquiring all requested resources. Hand it back to
/// the world with `release` to give up the accesses.
pub struct AcquiredResources {
    inner: system::AcquiredResources,
}

impl AcquiredResources {
    /// The identifier of the query that holds these resources.
    pub closed spec fn query_id_spec(&self) -> u64 {
        self.inner.query_id_spec()
    }

    /// The keys of the resources held, in the order they were taken.
    pub closed spec fn resource_keys_spec(&self) -> Seq<ResourceKey> {
        self.inner.resource_keys_spec()
    }

    /// The identifier of the query that holds these resources.
    pub fn query_id(&self) -> (r: QueryId)
        ensures
            r == self.query_id_spec(),
    {
        self.inner.query_id()
    }

    /// The keys of the resources held, in the order they were taken.
    pub fn resource_keys(&self) -> (r: &Vec<ResourceKey>)
        ensures
            r@ == self.resource_keys_spec(),
    {
        self.inner.resource_keys()
    }
}

/// Extension trait for [`World`] to support query-based access.
pub trait WorldQueryExt {
    /// Start acquiring the resources of a query: the query gets its identifier
    /// and the sorted keys it needs; it is then retried with
    /// `poll_acquire_query` until every resource can be taken.
    fn start_acquire_query(&mut self, query: ComponentQuery) -> PendingQuery;

    /// One attempt at taking every resource of a pending query at once.
    fn poll_acquire_query(&mut self, pending: &PendingQuery) -> Option<AcquiredResources>;

    /// Give back the resources of a query, releasing its accesses.
    fn release_query(&mut self, resources: AcquiredResources);
}

impl WorldQueryExt for World {
    /// Start acquiring the resources of a query. It always succeeds: the query
    /// consumes an identifier, and its keys are not checked against the
    /// components the world records.
    fn start_acquire_query(&mut self, query: ComponentQuery) -> (p: PendingQuery)
        ensures
            final(self).next_query_id_spec() == next_id(old(self).next_query_id_spec()),
            final(self).next_entity_spec() == old(self).next_entity_spec(),
            final(self).components_spec() == old(self).components_spec(),
            final(self).accesses() == old(self).accesses(),
            p.query_id_spec() == old(self).next_query_id_spec(),
            p.requests_spec() == system_requests(query.requests@),
            sorted_set_of(p.keys_spec(), system::keys_of(system_requests(query.requests@))),
    {
        let query_id = self.take_query_id();
        PendingQuery::new(query.into_system_query(), query_id)
    }

    /// One attempt at taking every resource of a pending query at once: it
    /// succeeds exactly when no resource conflicts with an active access, and
    /// then every resource gets one access of this query.
    fn poll_acquire_query(&mut self, pending: &PendingQuery) -> (r: Option<AcquiredResources>)
        ensures
            final(self).next_query_id_spec() == old(self).next_query_id_spec(),
            final(self).next_entity_spec() == old(self).next_entity_spec(),
            final(self).components_spec() == old(self).components_spec(),
            r is Some <==> keys_acquirable(
                old(self).accesses(),
                pending.requests_spec(),
                pending.keys_spec(),
            ),
            r matches Some(res) ==> res.query_id_spec() == pending.query_id_spec()
                && res.resource_keys_spec() == pending.keys_spec() && registered(
                old(self).accesses(),
                final(self).accesses(),
                pending.requests_spec(),
                pending.keys_spec(),
                pending.query_id_spec(),
            ),
            r is None ==> final(self).accesses() == old(self).accesses(),
    {
        match self.poll_pending_query(pending) {
            Some(inner) => Some(AcquiredResources { inner }),
            None => None,
        }
    }

    /// Give back the resources of a query: its accesses on those resources
    /// are removed, and resources left without accesses are forgotten.
    fn release_query(&mut self, resources: AcquiredResources)
        ensures
            final(self).next_query_id_spec() == old(self).next_query_id_spec(),
            final(self).next_entity_spec() == old(self).next_entity_spec(),
            final(self).components_spec() == old(self).components_spec(),
            released(
                old(self).accesses(),
                final(self).accesses(),
                resources.resource_keys_spec(),
                resources.query_id_spec(),
            ),
    {
        self.release(resources.inner);
    }
}

} // verus!
