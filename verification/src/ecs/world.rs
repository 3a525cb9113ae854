use std::hash::Hasher;
use vstd::prelude::*;

use crate::ecs::access_table::{
    AccessTable, ResourceAccess, ResourceKey, can_acquire_spec, accesses_or_empty, plan_has_key,
    plan_keys_distinct, without_query,
};
use crate::ecs::query_system::AccessType;

verus! {

/// Marker trait of the types that can be stored as components.
pub trait Component {

}

/// The std type identity, carried through as an opaque value.
#[verifier::external_type_specification]
#[verifier::external_body]
pub struct ExTypeId(std::any::TypeId);

/// The identity of the component type `T`, as std reports it.
#[verifier::external_body]
fn type_id_of<T: ?Sized + 'static>() -> std::any::TypeId {
    std::any::TypeId::of::<T>()
}

/// Feed a std type identity to a hasher, as its `Hash` impl does. What is
/// written is not stated: the identity is opaque.
#[verifier::external_body]
fn hash_type_id(id: &std::any::TypeId, hasher: &mut std::collections::hash_map::DefaultHasher) {
    std::hash::Hash::hash(id, hasher)
}

/// The numeric key under which the world records components of type `T`:
/// the hash of the std type identity of `T` under std's default hasher.
pub fn component_type_key<T: ?Sized + 'static>() -> u64 {
    let id = type_id_of::<T>();
    let mut hasher = std::collections::hash_map::DefaultHasher::new();
    hash_type_id(&id, &mut hasher);
    hasher.finish()
}

/// An entity is a plain numeric identifier handed out by the [`World`].
#[derive(Debug, Clone, Copy, PartialEq, Eq, Hash, Structural)]
pub struct Entity(pub u32);

impl Entity {
    /// The numeric identifier of the entity.
    pub fn id(&self) -> (r: u32)
        ensures
            r == self.0,
    {
        self.0
    }
}

/// The entities of `comps` recorded with type `t`, in order.
pub open spec fn entities_of_type(comps: Seq<(Entity, u64)>, t: u64) -> Seq<Entity>
    decreases comps.len(),
{
    if comps.len() == 0 {
        Seq::empty()
    } else if comps.last().1 == t {
        entities_of_type(comps.drop_last(), t).push(comps.last().0)
    } else {
        entities_of_type(comps.drop_last(), t)
    }
}

/// The world: hands out entity identifiers, records which entities carry which
/// component types, and tracks the component accesses held by active queries.
pub struct World {
    next_entity: u32,
    next_query_id: u64,
    components: Vec<(Entity, u64)>,
    table: AccessTable,
}

impl Default for World {
    /// An empty world.
    fn default() -> (w: Self)
        ensures
            w.next_entity_spec() == 0,
            w.next_query_id_spec() == 0,
            w.components_spec() == Seq::<(Entity, u64)>::empty(),
            w.accesses() == Map::<ResourceKey, Seq<ResourceAccess>>::empty(),
    {
        World::new()
    }
}

impl World {
    #[verifier::type_invariant]
    spec fn inv(self) -> bool {
        &&& self.table.wf()
        &&& forall|i: int, j: int|
            0 <= i < j < self.components@.len() ==> self.components@[i] != self.components@[j]
    }

    /// The identifier the next created entity receives.
    pub closed spec fn next_entity_spec(&self) -> u32 {
        self.next_entity
    }

    /// The identifier the next query receives.
    pub closed spec fn next_query_id_spec(&self) -> u64 {
        self.next_query_id
    }

    /// The (entity, component type) pairs recorded, in the order they were added.
    pub closed spec fn components_spec(&self) -> Seq<(Entity, u64)> {
        self.components@
    }

    /// The active accesses, by resource key. A key is present exactly when some
    /// query holds an access to it.
    pub closed spec fn accesses(&self) -> Map<ResourceKey, Seq<ResourceAccess>> {
        self.table.accesses()
    }

    /// Create an empty world.
    pub fn new() -> (w: Self)
        ensures
            w.next_entity_spec() == 0,
            w.next_query_id_spec() == 0,
            w.components_spec() == Seq::<(Entity, u64)>::empty(),
            w.accesses() == Map::<ResourceKey, Seq<ResourceAccess>>::empty(),
    {
        World { next_entity: 0, next_query_id: 0, components: Vec::new(), table: AccessTable::new() }
    }

    /// Create a new entity, numbered after the previous one (the counter wraps
    /// around after `u32::MAX`).
    pub fn create_entity(&mut self) -> (e: Entity)
        ensures
            e.0 == old(self).next_entity_spec(),
            final(self).next_entity_spec() == (if old(self).next_entity_spec() < u32::MAX {
                (old(self).next_entity_spec() + 1) as u32
            } else {
                0u32
            }),
            final(self).next_query_id_spec() == old(self).next_query_id_spec(),
            final(self).components_spec() == old(self).components_spec(),
            final(self).accesses() == old(self).accesses(),
    {
        proof {
            use_type_invariant(&*self);
        }
        let e = Entity(self.next_entity);
        self.next_entity = self.next_entity.wrapping_add(1);
        e
    }

    /// Hand out a fresh query identifier (the counter wraps around after `u64::MAX`).
    pub fn take_query_id(&mut self) -> (id: u64)
        ensures
            id == old(self).next_query_id_spec(),
            final(self).next_query_id_spec() == (if old(self).next_query_id_spec() < u64::MAX {
                (old(self).next_query_id_spec() + 1) as u64
            } else {
                0u64
            }),
            final(self).next_entity_spec() == old(self).next_entity_spec(),
            final(self).components_spec() == old(self).components_spec(),
            final(self).accesses() == old(self).accesses(),
    {
        proof {
            use_type_invariant(&*self);
        }
        let id = self.next_query_id;
        self.next_query_id = self.next_query_id.wrapping_add(1);
        id
    }

    /// Record that `entity` carries a component of type `type_key`.
    pub fn add_component_type(&mut self, entity: Entity, type_key: u64)
        ensures
            final(self).components_spec() == (if old(self).components_spec().contains(
                (entity, type_key),
            ) {
                old(self).components_spec()
            } else {
                old(self).components_spec().push((entity, type_key))
            }),
            final(self).next_entity_spec() == old(self).next_entity_spec(),
            final(self).next_query_id_spec() == old(self).next_query_id_spec(),
            final(self).accesses() == old(self).accesses(),
    {
        proof {
            use_type_invariant(&*self);
        }
        let mut i: usize = 0;
        while i < self.components.len()
            invariant
                i <= self.components@.len(),
                forall|j: int| 0 <= j < i ==> self.components@[j] != (entity, type_key),
            decreases self.components@.len() - i,
        {
            let (e, t) = self.components[i];
            if e.0 == entity.0 && t == type_key {
                proof {
                    assert(self.components@[i as int] == (entity, type_key));
                }
                return;
            }
            i = i + 1;
        }
        let mut comps: Vec<(Entity, u64)> = Vec::new();
        std::mem::swap(&mut comps, &mut self.components);
        comps.push((entity, type_key));
        self.components = comps;
    }

    /// The entities that carry a component of type `type_key`, in the order in
    /// which their components were added.
    pub fn entities_with_component(&self, type_key: u64) -> (r: Vec<Entity>)
        ensures
            r@ == entities_of_type(self.components_spec(), type_key),
    {
        let mut r: Vec<Entity> = Vec::new();
        let mut i: usize = 0;
        while i < self.components.len()
            invariant
                i <= self.components@.len(),
                r@ == entities_of_type(self.components@.take(i as int), type_key),
            decreases self.components@.len() - i,
        {
            proof {
                assert(self.components@.take(i + 1).drop_last() =~= self.components@.take(i as int));
            }
            let (e, t) = self.components[i];
            if t == type_key {
                r.push(e);
            }
            i = i + 1;
        }
        proof {
            assert(self.components@.take(self.components@.len() as int) =~= self.components@);
        }
        r
    }

    /// Whether `entity` carries a component of type `type_key`.
    pub fn has_component_of_type(&self, entity: Entity, type_key: u64) -> (r: bool)
        ensures
            r == self.components_spec().contains((entity, type_key)),
    {
        let mut i: usize = 0;
        while i < self.components.len()
            invariant
                i <= self.components@.len(),
                forall|j: int| 0 <= j < i ==> self.components@[j] != (entity, type_key),
            decreases self.components@.len() - i,
        {
            let (e, t) = self.components[i];
            if e.0 == entity.0 && t == type_key {
                proof {
                    assert(self.components@[i as int] == (entity, type_key));
                }
                return true;
            }
            i = i + 1;
        }
        false
    }

    /// The number of resources that currently have at least one active access.
    pub fn active_query_count(&self) -> (r: usize)
        ensures
            r == self.accesses().dom().len(),
    {
        proof {
            use_type_invariant(self);
        }
        self.table.len()
    }

    /// Drop every active access at once (for emergency cleanup). Always
    /// succeeds and returns `true`.
    pub fn clear_active_queries(&mut self) -> (r: bool)
        ensures
            r,
            final(self).accesses() == Map::<ResourceKey, Seq<ResourceAccess>>::empty(),
            final(self).next_entity_spec() == old(self).next_entity_spec(),
            final(self).next_query_id_spec() == old(self).next_query_id_spec(),
            final(self).components_spec() == old(self).components_spec(),
    {
        proof {
            use_type_invariant(&*self);
        }
        self.table = AccessTable::new();
        true
    }

    /// Check if a resource can be acquired with the given access type: a write
    /// conflicts with every active access, a read only with active writes.
    pub fn can_acquire_resource(&self, key: ResourceKey, access_type: AccessType) -> (r: bool)
        ensures
            r == can_acquire_spec(self.accesses(), key, access_type),
    {
        proof {
            use_type_invariant(self);
        }
        self.table.can_acquire_resource(key, access_type)
    }

    /// Atomically register the accesses of `plan` for query `query_id`: when
    /// every step is compatible with the accesses already held, all of them are
    /// recorded and `true` is returned; otherwise nothing changes.
    pub fn try_register_accesses(
        &mut self,
        query_id: u64,
        plan: &Vec<(ResourceKey, AccessType)>,
    ) -> (ok: bool)
        requires
            plan_keys_distinct(plan@),
        ensures
            final(self).next_entity_spec() == old(self).next_entity_spec(),
            final(self).next_query_id_spec() == old(self).next_query_id_spec(),
            final(self).components_spec() == old(self).components_spec(),
            ok == forall|i: int|
                0 <= i < plan@.len() ==> can_acquire_spec(
                    old(self).accesses(),
                    (#[trigger] plan@[i]).0,
                    plan@[i].1,
                ),
            !ok ==> final(self).accesses() == old(self).accesses(),
            ok ==> forall|i: int|
                0 <= i < plan@.len() ==> final(self).accesses().dom().contains((#[trigger] plan@[i]).0)
                    && final(self).accesses()[plan@[i].0] == accesses_or_empty(
                    old(self).accesses(),
                    plan@[i].0,
                ).push(ResourceAccess { query_id, access_type: plan@[i].1 }),
            ok ==> forall|k: ResourceKey|
                !plan_has_key(plan@, k) ==> (#[trigger] final(self).accesses().dom().contains(k)
                    == old(self).accesses().dom().contains(k)),
            ok ==> forall|k: ResourceKey|
                !plan_has_key(plan@, k) && old(self).accesses().dom().contains(k)
                    ==> #[trigger] final(self).accesses()[k] == old(self).accesses()[k],
    {
        proof {
            use_type_invariant(&*self);
        }
        let mut t = AccessTable::new();
        std::mem::swap(&mut t, &mut self.table);
        let ok = t.try_register_accesses(query_id, plan);
        self.table = t;
        ok
    }

    /// Remove every access of query `query_id` from the entries of `keys`; an
    /// entry left without accesses is removed.
    pub fn release_accesses(&mut self, query_id: u64, keys: &Vec<ResourceKey>)
        ensures
            final(self).next_entity_spec() == old(self).next_entity_spec(),
            final(self).next_query_id_spec() == old(self).next_query_id_spec(),
            final(self).components_spec() == old(self).components_spec(),
            forall|k: ResourceKey|
                keys@.contains(k) ==> (#[trigger] final(self).accesses().dom().contains(k) <==> (
                old(self).accesses().dom().contains(k) && without_query(
                    old(self).accesses()[k],
                    query_id,
                ).len() > 0)),
            forall|k: ResourceKey|
                keys@.contains(k) && final(self).accesses().dom().contains(k)
                    ==> #[trigger] final(self).accesses()[k] == without_query(
                    old(self).accesses()[k],
                    query_id,
                ),
            forall|k: ResourceKey|
                !keys@.contains(k) ==> (#[trigger] final(self).accesses().dom().contains(k)
                    == old(self).accesses().dom().contains(k)),
            forall|k: ResourceKey|
                !keys@.contains(k) && old(self).accesses().dom().contains(k)
                    ==> #[trigger] final(self).accesses()[k] == old(self).accesses()[k],
    {
        proof {
            use_type_invariant(&*self);
        }
        let mut t = AccessTable::new();
        std::mem::swap(&mut t, &mut self.table);
        t.release_accesses(query_id, keys);
        self.table = t;
    }
}

} // verus!
