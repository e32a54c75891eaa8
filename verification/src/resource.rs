use vstd::prelude::*;
use std::collections::HashMap;
use std::collections::hash_map::Entry;
use crate::storage::KindKey;

verus! {

broadcast use vstd::std_specs::hash::group_hash_axioms;

/// The resources of a world: at most one of each kind.
pub struct ResourceStorage<R>(HashMap<KindKey, R>);

impl<R> ResourceStorage<R> {
    /// For each kind present, the resource of that kind.
    pub closed spec fn view(&self) -> Map<KindKey, R> {
        self.0@
    }

    /// An empty storage.
    pub fn new() -> (s: Self)
        ensures
            s@ == Map::<KindKey, R>::empty(),
    {
        ResourceStorage(HashMap::new())
    }

    /// Stores `resource` as the resource of kind `kind`, unless one of that kind is
    /// already there: the first one added stays.
    pub fn add(&mut self, kind: KindKey, resource: R)
        ensures
            final(self)@ == with_resource(old(self)@, kind, resource),
            final(self)@.dom() == old(self)@.dom().insert(kind),
            forall|k: KindKey| #[trigger] old(self)@.contains_key(k) ==> final(self)@[k] == old(self)@[k],
            !old(self)@.contains_key(kind) ==> final(self)@[kind] == resource,
    {
        let _stored = self.0.entry(kind).or_insert(resource);
        proof {
            if old(self)@.contains_key(kind) {
                assert(old(self)@.insert(kind, old(self)@[kind]) =~= old(self)@);
            }
        }
    }

    /// The resource of kind `kind`.
    pub fn get(&self, kind: KindKey) -> (r: Option<&R>)
        ensures
            match r {
                Some(v) => self@.contains_key(kind) && *v == self@[kind],
                None => !self@.contains_key(kind),
            },
    {
        self.0.get(&kind)
    }

    /// The resource of kind `kind`, to change it.
    pub fn get_mut(&mut self, kind: KindKey) -> (r: Option<&mut R>)
        ensures
            match r {
                Some(v) => old(self)@.contains_key(kind) && *v == old(self)@[kind]
                    && final(self)@ == old(self)@.insert(kind, *final(v)),
                None => !old(self)@.contains_key(kind) && final(self)@ == old(self)@,
            },
    {
        match self.0.entry(kind) {
            Entry::Occupied(o) => Some(o.into_mut()),
            Entry::Vacant(_v) => {
                proof { assert(old(self)@.remove(kind) =~= old(self)@); }
                None
            },
        }
    }

    /// Takes away the resource of kind `kind`.
    pub fn remove(&mut self, kind: KindKey) -> (r: Option<R>)
        ensures
            final(self)@ == old(self)@.remove(kind),
            r == (if old(self)@.contains_key(kind) { Some(old(self)@[kind]) } else { None }),
    {
        self.0.remove(&kind)
    }
}

} // verus!

verus! {

/// `m` after a resource `r` of kind `kind` is added.
pub open spec fn with_resource<R>(m: Map<KindKey, R>, kind: KindKey, r: R) -> Map<KindKey, R> {
    if m.contains_key(kind) { m } else { m.insert(kind, r) }
}

/// Adding a resource keeps every resource already there, of its own kind and
/// of every other kind, and brings in the new one only where its kind had none.
pub proof fn law_add_keeps_resources<R>(m: Map<KindKey, R>, kind: KindKey, r: R, other: KindKey)
    ensures
        with_resource(m, kind, r).dom() == m.dom().insert(kind),
        m.contains_key(other) ==> with_resource(m, kind, r)[other] == m[other],
        other != kind ==> with_resource(m, kind, r).contains_key(other) == m.contains_key(other),
        !m.contains_key(kind) ==> with_resource(m, kind, r)[kind] == r,
{
    assert(with_resource(m, kind, r).dom() =~= m.dom().insert(kind));
}

/// Of two resources of one kind added in turn, the first one stays.
pub proof fn law_first_resource_stays<R>(m: Map<KindKey, R>, kind: KindKey, first: R, second: R)
    requires
        !m.contains_key(kind),
    ensures
        with_resource(with_resource(m, kind, first), kind, second)[kind] == first,
        with_resource(with_resource(m, kind, first), kind, second) == with_resource(m, kind, first),
{
}

/// A resource taken away is no longer there; the others stay.
pub proof fn law_get_after_remove_resource<R>(m: Map<KindKey, R>, kind: KindKey, other: KindKey)
    ensures
        !m.remove(kind).contains_key(kind),
        other != kind ==> m.remove(kind).contains_key(other) == m.contains_key(other)
            && (m.contains_key(other) ==> m.remove(kind)[other] == m[other]),
{
}

} // verus!
