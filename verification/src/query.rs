use vstd::prelude::*;
use crate::storage::{ComponentsStorage, KindKey, Storage};

verus! {

/// A view of the components of one kind, read from a world's storage.
pub struct Query<'a, V> {
    world: &'a ComponentsStorage<V>,
    kind: KindKey,
}

impl<'a, V> Query<'a, V> {
    /// A query over the components of kind `kind` in `world`.
    pub fn new(world: &'a ComponentsStorage<V>, kind: KindKey) -> (q: Self)
        ensures
            q.world() == world,
            q.kind() == kind,
    {
        Query { world, kind }
    }

    /// The storage read.
    pub closed spec fn world(&self) -> &'a ComponentsStorage<V> {
        self.world
    }

    /// The kind queried.
    pub closed spec fn kind(&self) -> KindKey {
        self.kind
    }

    /// The storage of the queried kind, which the world must hold.
    pub fn fetch(&self) -> (s: &'a Storage<V>)
        requires
            self.world()@.contains_key(self.kind()),
        ensures
            s@ == self.world()@[self.kind()],
    {
        match self.world.get_component_storage(self.kind) {
            Some(s) => s,
            None => {
                vstd::pervasive::unreached()
            },
        }
    }
}

/// A query over the components of one kind that may change them.
pub struct QueryMut<'a, V> {
    world: &'a mut ComponentsStorage<V>,
    kind: KindKey,
}

impl<'a, V> QueryMut<'a, V> {
    /// A changing query over the components of kind `kind` in `world`.
    pub fn new(world: &'a mut ComponentsStorage<V>, kind: KindKey) -> (q: Self)
        ensures
            *q.world() == *old(world),
            *final(q.world()) == *final(world),
            q.kind() == kind,
    {
        QueryMut { world, kind }
    }

    /// The storage of the queried kind, to change its components; the world
    /// must hold that kind.
    pub fn fetch(self) -> (s: &'a mut Storage<V>)
        requires
            (*self.world())@.contains_key(self.kind()),
        ensures
            s@ == (*self.world())@[self.kind()],
            final(self.world())@ == (*self.world())@.insert(self.kind(), final(s)@),
    {
        let kind = self.kind;
        match self.world.get_component_storage_mut(kind) {
            Some(s) => s,
            None => {
                vstd::pervasive::unreached()
            },
        }
    }

    /// The storage changed.
    pub closed spec fn world(&self) -> &'a mut ComponentsStorage<V> {
        self.world
    }

    /// The kind queried.
    pub closed spec fn kind(&self) -> KindKey {
        self.kind
    }
}

} // verus!
