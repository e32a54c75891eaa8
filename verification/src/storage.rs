use vstd::prelude::*;
use std::collections::HashMap;
use std::collections::hash_map::Entry;
use crate::assoc::{assoc_map, assoc_wf, lemma_assoc_empty, lemma_assoc_lookup, lemma_assoc_push, lemma_assoc_update, lemma_assoc_remove, lemma_assoc_dom};
use crate::entity::{Entity, EntityKey};

verus! {

/// The components of one kind, each held by one entity.
pub struct Storage<V> {
    keys: Vec<Entity>,
    values: Vec<V>,
}

impl<V> Storage<V> {
    #[verifier::type_invariant]
    spec fn inv(self) -> bool {
        assoc_wf(self.key_seq(), self.values@)
    }

    /// The holders, in storage order.
    pub closed spec fn key_seq(&self) -> Seq<EntityKey> {
        self.keys@.map_values(|e: Entity| e@)
    }

    /// The components, in storage order.
    pub closed spec fn value_seq(&self) -> Seq<V> {
        self.values@
    }

    /// Each holder, with its component.
    pub open spec fn view(&self) -> Map<EntityKey, V> {
        assoc_map(self.key_seq(), self.value_seq())
    }

    /// An empty storage.
    pub fn new() -> (s: Self)
        ensures
            s@ == Map::<EntityKey, V>::empty(),
            s.key_seq().len() == 0,
    {
        let s = Storage { keys: Vec::new(), values: Vec::new() };
        proof { lemma_assoc_empty::<EntityKey, V>(); assert(s.key_seq() =~= Seq::<EntityKey>::empty()); }
        s
    }

    /// Empties this storage and hands out what it held.
    fn take_parts(&mut self) -> (r: (Vec<Entity>, Vec<V>))
        ensures
            r.0@ == old(self).keys@,
            r.1@ == old(self).values@,
            final(self)@ == Map::<EntityKey, V>::empty(),
    {
        let mut parts = Storage::new();
        std::mem::swap(self, &mut parts);
        let Storage { keys, values } = parts;
        (keys, values)
    }

    /// The position of `entity`.
    fn find(&self, entity: &Entity) -> (r: Option<usize>)
        ensures
            match r {
                Some(i) => i < self.key_seq().len() && self.key_seq()[i as int] == entity@,
                None => !self.key_seq().contains(entity@),
            },
    {
        let mut i: usize = 0;
        while i < self.keys.len()
            invariant
                i <= self.keys@.len(),
                forall|j: int| 0 <= j < i ==> self.key_seq()[j] != entity@,
            decreases self.keys@.len() - i,
        {
            if self.keys[i].same_as(entity) {
                return Some(i);
            }
            i = i + 1;
        }
        None
    }

    /// Number of components held: one per holder, and the positions
    /// `0..n` list each holder exactly once.
    pub fn len(&self) -> (n: usize)
        ensures
            n == self.key_seq().len(),
            n == self@.dom().len(),
            self.key_seq().no_duplicates(),
            self.key_seq().to_set() == self@.dom(),
    {
        proof {
            use_type_invariant(&*self);
            lemma_assoc_dom(self.key_seq(), self.value_seq());
        }
        self.keys.len()
    }

    /// The holder and the component at position `i` in storage order.
    pub fn entry(&self, i: usize) -> (r: (&Entity, &V))
        requires
            i < self.key_seq().len(),
        ensures
            r.0@ == self.key_seq()[i as int],
            *r.1 == self.value_seq()[i as int],
            self@.contains_key(r.0@),
            self@[r.0@] == *r.1,
    {
        proof {
            use_type_invariant(&*self);
            lemma_assoc_lookup(self.key_seq(), self.value_seq(), i as int);
        }
        (&self.keys[i], &self.values[i])
    }

    /// Gives `entity` the component `value`, and hands back the component it held before.
    pub fn insert(&mut self, entity: Entity, value: V) -> (r: Option<V>)
        ensures
            final(self)@ == old(self)@.insert(entity@, value),
            r == (if old(self)@.contains_key(entity@) { Some(old(self)@[entity@]) } else { None }),
    {
        proof { use_type_invariant(&*self); }
        match self.find(&entity) {
            Some(i) => {
                proof { lemma_assoc_update(self.key_seq(), self.value_seq(), i as int, value); lemma_assoc_lookup(self.key_seq(), self.value_seq(), i as int); }
                let mut value = value;
                std::mem::swap(&mut self.values[i], &mut value);
                Some(value)
            },
            None => {
                proof {
                    lemma_assoc_push(self.key_seq(), self.value_seq(), entity@, value);
                    assert(self.keys@.push(entity).map_values(|e: Entity| e@) =~= self.key_seq().push(entity@));
                }
                let (mut keys, mut values) = self.take_parts();
                keys.push(entity);
                values.push(value);
                *self = Storage { keys, values };
                None
            },
        }
    }

    /// The component that `entity` holds.
    pub fn get(&self, entity: &Entity) -> (r: Option<&V>)
        ensures
            match r {
                Some(v) => self@.contains_key(entity@) && *v == self@[entity@],
                None => !self@.contains_key(entity@),
            },
    {
        proof { use_type_invariant(&*self); }
        match self.find(entity) {
            Some(i) => {
                proof { lemma_assoc_lookup(self.key_seq(), self.value_seq(), i as int); }
                Some(&self.values[i])
            },
            None => None,
        }
    }

    /// Takes away the component that `entity` holds.
    pub fn remove(&mut self, entity: &Entity) -> (r: Option<V>)
        ensures
            final(self)@ == old(self)@.remove(entity@),
            r == (if old(self)@.contains_key(entity@) { Some(old(self)@[entity@]) } else { None }),
    {
        proof { use_type_invariant(&*self); }
        match self.find(entity) {
            Some(i) => {
                proof {
                    lemma_assoc_lookup(self.key_seq(), self.value_seq(), i as int);
                    lemma_assoc_remove(self.key_seq(), self.value_seq(), i as int);
                    self.keys@.remove_ensures(i as int);
                    assert(self.keys@.remove(i as int).map_values(|e: Entity| e@) =~= self.key_seq().remove(i as int));
                }
                let (mut keys, mut values) = self.take_parts();
                let _holder = keys.remove(i);
                let v = values.remove(i);
                *self = Storage { keys, values };
                Some(v)
            },
            None => None,
        }
    }

    /// The component that `entity` holds, to change it.
    pub fn get_mut(&mut self, entity: &Entity) -> (r: Option<&mut V>)
        ensures
            match r {
                Some(v) => old(self)@.contains_key(entity@) && *v == old(self)@[entity@]
                    && final(self)@ == old(self)@.insert(entity@, *final(v)),
                None => !old(self)@.contains_key(entity@) && final(self)@ == old(self)@,
            },
    {
        proof { use_type_invariant(&*self); }
        match self.find(entity) {
            Some(i) => {
                proof { lemma_assoc_lookup(self.key_seq(), self.value_seq(), i as int); }
                Some(&mut self.values[i])
            },
            None => None,
        }
    }
}

} // verus!

verus! {

/// Stands for the type of a component: components of one kind share one key.
pub type KindKey = u64;

/// In a map from kinds to holders to components, the component of kind `kind`
/// that `entity` holds.
pub open spec fn component_in<V>(m: Map<KindKey, Map<EntityKey, V>>, kind: KindKey, entity: EntityKey) -> Option<V> {
    if m.contains_key(kind) && m[kind].contains_key(entity) {
        Some(m[kind][entity])
    } else {
        None
    }
}

/// `m` after `entity` is given the component `value` of kind `kind`.
pub open spec fn with_component<V>(m: Map<KindKey, Map<EntityKey, V>>, kind: KindKey, entity: EntityKey, value: V) -> Map<KindKey, Map<EntityKey, V>> {
    m.insert(kind, (if m.contains_key(kind) { m[kind] } else { Map::empty() }).insert(entity, value))
}

/// `m` after the component of kind `kind` that `entity` holds is taken away.
pub open spec fn without_component<V>(m: Map<KindKey, Map<EntityKey, V>>, kind: KindKey, entity: EntityKey) -> Map<KindKey, Map<EntityKey, V>> {
    if m.contains_key(kind) {
        m.insert(kind, m[kind].remove(entity))
    } else {
        m
    }
}

/// The contents of each storage.
pub open spec fn views_of<V>(stores: Map<KindKey, Storage<V>>) -> Map<KindKey, Map<EntityKey, V>> {
    stores.map_values(|s: Storage<V>| s@)
}

/// The components of a world, by kind, then by holder.
pub struct ComponentsStorage<V>(HashMap<KindKey, Storage<V>>);

impl<V> ComponentsStorage<V> {
    /// For each kind present, the storage of that kind.
    pub closed spec fn view(&self) -> Map<KindKey, Map<EntityKey, V>> {
        views_of(self.0@)
    }

    /// The component of kind `kind` that `entity` holds, if any.
    pub open spec fn component(&self, kind: KindKey, entity: EntityKey) -> Option<V> {
        component_in(self@, kind, entity)
    }

    /// Giving kind `kind` any storage gives it that storage's contents.
    proof fn lemma_replace_store(&self, kind: KindKey)
        ensures
            forall|st: Storage<V>| #[trigger] views_of(self.0@.insert(kind, st)) == self@.insert(kind, st@),
    {
        assert forall|st: Storage<V>| #[trigger] views_of(self.0@.insert(kind, st)) == self@.insert(kind, st@) by {
            assert(views_of(self.0@.insert(kind, st)) =~= self@.insert(kind, st@));
        }
    }

    /// An empty storage.
    pub fn new() -> (s: Self)
        ensures
            s@ == Map::<KindKey, Map<EntityKey, V>>::empty(),
    {
        let s = ComponentsStorage(HashMap::new());
        assert(s@ =~= Map::<KindKey, Map<EntityKey, V>>::empty());
        s
    }

    /// The storage that holds the components of kind `kind`.
    pub fn get_component_storage(&self, kind: KindKey) -> (r: Option<&Storage<V>>)
        ensures
            match r {
                Some(s) => self@.contains_key(kind) && s@ == self@[kind],
                None => !self@.contains_key(kind),
            },
    {
        self.0.get(&kind)
    }

    /// Gives `entity` the component `component` of kind `kind`, in place of the one
    /// of that kind it held before; the kind gets a storage of its own if it had none.
    pub fn add_component(&mut self, kind: KindKey, entity: &Entity, component: V)
        ensures
            final(self)@ == with_component(old(self)@, kind, entity@, component),
    {
        proof { self.lemma_replace_store(kind); }
        let storage = self.0.entry(kind).or_insert(Storage::new());
        let _previous = storage.insert(entity.duplicate(), component);
    }

    /// The component of kind `kind` that `entity` holds.
    pub fn get_component(&self, kind: KindKey, entity: &Entity) -> (r: Option<&V>)
        ensures
            match r {
                Some(v) => self.component(kind, entity@) == Some(*v),
                None => self.component(kind, entity@) is None,
            },
    {
        match self.get_component_storage(kind) {
            Some(storage) => storage.get(entity),
            None => None,
        }
    }

    /// The component of kind `kind` that `entity` holds, to change it.
    pub fn get_component_mut(&mut self, kind: KindKey, entity: &Entity) -> (r: Option<&mut V>)
        ensures
            match r {
                Some(v) => old(self).component(kind, entity@) == Some(*v)
                    && final(self)@ == old(self)@.insert(kind, old(self)@[kind].insert(entity@, *final(v))),
                None => old(self).component(kind, entity@) is None && final(self)@ == old(self)@,
            },
    {
        match self.get_component_storage_mut(kind) {
            Some(storage) => storage.get_mut(entity),
            None => None,
        }
    }

    /// Takes away the component of kind `kind` that `entity` holds; the storage of
    /// that kind stays, though it may now be empty.
    pub fn remove_component(&mut self, kind: KindKey, entity: &Entity) -> (r: Option<V>)
        ensures
            r == old(self).component(kind, entity@),
            final(self)@ == without_component(old(self)@, kind, entity@),
    {
        match self.get_component_storage_mut(kind) {
            Some(storage) => storage.remove(entity),
            None => None,
        }
    }

    /// The storage that holds the components of kind `kind`, to change them.
    pub fn get_component_storage_mut(&mut self, kind: KindKey) -> (r: Option<&mut Storage<V>>)
        ensures
            match r {
                Some(s) => old(self)@.contains_key(kind) && s@ == old(self)@[kind]
                    && final(self)@ == old(self)@.insert(kind, final(s)@),
                None => !old(self)@.contains_key(kind) && final(self)@ == old(self)@,
            },
    {
        proof { self.lemma_replace_store(kind); }
        match self.0.entry(kind) {
            Entry::Occupied(o) => Some(o.into_mut()),
            Entry::Vacant(_v) => {
                proof { assert(old(self).0@.remove(kind) =~= old(self).0@); }
                None
            },
        }
    }
}

} // verus!

verus! {

/// A component given to an entity is the one read back for that entity and
/// kind, and every other entity and kind reads as before.
pub proof fn law_get_after_add<V>(
    m: Map<KindKey, Map<EntityKey, V>>,
    kind: KindKey,
    entity: EntityKey,
    value: V,
    other_kind: KindKey,
    other_entity: EntityKey,
)
    ensures
        component_in(with_component(m, kind, entity, value), kind, entity) == Some(value),
        (other_kind, other_entity) != (kind, entity) ==>
            component_in(with_component(m, kind, entity, value), other_kind, other_entity)
                == component_in(m, other_kind, other_entity),
{
}

/// Once a component is taken away, nothing is read for that entity and kind,
/// and every other entity and kind reads as before.
pub proof fn law_get_after_remove<V>(
    m: Map<KindKey, Map<EntityKey, V>>,
    kind: KindKey,
    entity: EntityKey,
    other_kind: KindKey,
    other_entity: EntityKey,
)
    ensures
        component_in(without_component(m, kind, entity), kind, entity) is None,
        (other_kind, other_entity) != (kind, entity) ==>
            component_in(without_component(m, kind, entity), other_kind, other_entity)
                == component_in(m, other_kind, other_entity),
{
}

/// Taking away a component just given hands it back, and leaves the entity
/// without a component of that kind.
pub proof fn law_remove_after_add<V>(m: Map<KindKey, Map<EntityKey, V>>, kind: KindKey, entity: EntityKey, value: V)
    ensures
        component_in(with_component(m, kind, entity, value), kind, entity) == Some(value),
        component_in(without_component(with_component(m, kind, entity, value), kind, entity), kind, entity) is None,
        without_component(with_component(m, kind, entity, value), kind, entity).contains_key(kind),
{
}

/// Giving an entity a component twice keeps only the second one.
pub proof fn law_add_replaces<V>(m: Map<KindKey, Map<EntityKey, V>>, kind: KindKey, entity: EntityKey, first: V, second: V)
    ensures
        with_component(with_component(m, kind, entity, first), kind, entity, second)
            == with_component(m, kind, entity, second),
{
    let inner = if m.contains_key(kind) { m[kind] } else { Map::empty() };
    assert(inner.insert(entity, first).insert(entity, second) =~= inner.insert(entity, second));
    assert(with_component(with_component(m, kind, entity, first), kind, entity, second)
        =~= with_component(m, kind, entity, second));
}

} // verus!
