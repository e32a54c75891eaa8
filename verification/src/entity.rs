use vstd::prelude::*;

verus! {

/// Identifies a thing living in a world.
#[derive(Clone, PartialEq, Eq, Hash, Debug)]
pub enum Entity {
    Camera,
    Origin,
    Custom(String),
    Id(usize),
}

/// What an entity is, with a custom name taken by its characters.
pub ghost enum EntityKey {
    Camera,
    Origin,
    Custom(Seq<char>),
    Id(usize),
}

impl View for Entity {
    type V = EntityKey;

    /// The entity as a value, its name taken by its characters.
    open spec fn view(&self) -> EntityKey {
        match self {
            Entity::Camera => EntityKey::Camera,
            Entity::Origin => EntityKey::Origin,
            Entity::Custom(s) => EntityKey::Custom(s@),
            Entity::Id(i) => EntityKey::Id(*i),
        }
    }
}

impl Entity {
    /// Compares two entities, variant by variant and then by payload.
    pub fn same_as(&self, other: &Entity) -> (r: bool)
        ensures
            r == (self@ == other@),
    {
        match (self, other) {
            (Entity::Camera, Entity::Camera) => true,
            (Entity::Origin, Entity::Origin) => true,
            (Entity::Custom(a), Entity::Custom(b)) => a.eq(b),
            (Entity::Id(a), Entity::Id(b)) => *a == *b,
            _ => false,
        }
    }

    /// A copy of this entity.
    pub fn duplicate(&self) -> (r: Entity)
        ensures
            r@ == self@,
    {
        match self {
            Entity::Camera => Entity::Camera,
            Entity::Origin => Entity::Origin,
            Entity::Custom(s) => Entity::Custom(s.clone()),
            Entity::Id(i) => Entity::Id(*i),
        }
    }
}

} // verus!

verus! {

/// A set of entities, none held twice.
pub struct EntitySet {
    items: Vec<Entity>,
}

impl EntitySet {
    #[verifier::type_invariant]
    spec fn inv(self) -> bool {
        self.key_seq().no_duplicates()
    }

    /// The members, in the order they were added.
    spec fn key_seq(&self) -> Seq<EntityKey> {
        self.items@.map_values(|e: Entity| e@)
    }

    /// The entities held.
    pub closed spec fn view(&self) -> Set<EntityKey> {
        self.key_seq().to_set()
    }

    /// An empty set.
    pub fn new() -> (s: Self)
        ensures
            s@ == Set::<EntityKey>::empty(),
    {
        let s = EntitySet { items: Vec::new() };
        assert(s@ =~= Set::<EntityKey>::empty());
        s
    }

    /// Number of entities held.
    pub fn len(&self) -> (n: usize)
        ensures
            n == self@.len(),
    {
        proof {
            use_type_invariant(self);
            self.key_seq().unique_seq_to_set();
        }
        self.items.len()
    }

    /// Whether `entity` is held.
    pub fn contains(&self, entity: &Entity) -> (r: bool)
        ensures
            r == self@.contains(entity@),
    {
        let mut i: usize = 0;
        while i < self.items.len()
            invariant
                i <= self.items@.len(),
                forall|j: int| 0 <= j < i ==> self.key_seq()[j] != entity@,
            decreases self.items@.len() - i,
        {
            if self.items[i].same_as(entity) {
                assert(self.key_seq()[i as int] == entity@);
                return true;
            }
            i = i + 1;
        }
        false
    }

    /// Adds `entity`; tells whether it was new.
    pub fn insert(&mut self, entity: Entity) -> (r: bool)
        ensures
            r == !old(self)@.contains(entity@),
            final(self)@ == old(self)@.insert(entity@),
    {
        proof { use_type_invariant(&*self); }
        if self.contains(&entity) {
            assert(old(self)@.insert(entity@) =~= old(self)@);
            false
        } else {
            let ghost ks = self.key_seq();
            let mut parts = EntitySet::new();
            std::mem::swap(self, &mut parts);
            let EntitySet { mut items } = parts;
            items.push(entity);
            proof {
                let nks = items@.map_values(|e: Entity| e@);
                assert(nks =~= ks.push(entity@));
                assert(nks.no_duplicates()) by {
                    assert forall|a: int, b: int| 0 <= a < nks.len() && 0 <= b < nks.len() && a != b
                        implies nks[a] != nks[b] by {
                        if a < ks.len() && b < ks.len() {
                        } else if a < ks.len() {
                            assert(ks.contains(ks[a]));
                        } else {
                            assert(ks.contains(ks[b]));
                        }
                    }
                }
                assert forall|x: EntityKey| #[trigger] nks.to_set().contains(x)
                    == ks.to_set().insert(entity@).contains(x) by {
                    if ks.contains(x) {
                        let j = choose|j: int| 0 <= j < ks.len() && ks[j] == x;
                        assert(nks[j] == x);
                    }
                    if x == entity@ {
                        assert(nks[ks.len() as int] == x);
                    }
                }
                assert(nks.to_set() =~= ks.to_set().insert(entity@));
            }
            *self = EntitySet { items };
            true
        }
    }
}

} // verus!
