use vstd::prelude::*;
use crate::entity::{Entity, EntityKey, EntitySet};
use crate::resource::ResourceStorage;
use crate::storage::{component_in, ComponentsStorage, KindKey, with_component, without_component};
use crate::system::{ran_in_order, System, SystemMut};

verus! {

/// The entity that `spawn` brings in: the one asked for, or else the next numbered one.
pub open spec fn spawned_key(next_id: usize, entity: Option<Entity>) -> EntityKey {
    match entity {
        Some(e) => e@,
        None => EntityKey::Id(next_id),
    }
}

/// The entities that `entity` and `r` hold, by value.
pub open spec fn option_key(entity: Option<Entity>) -> Option<EntityKey> {
    match entity {
        Some(e) => Some(e@),
        None => None,
    }
}

/// One spawn, given the next number, the entities held and the entity asked
/// for: the next number, the entities held and the entity given back after it.
pub open spec fn spawn_step(next_id: int, held: Set<EntityKey>, entity: Option<EntityKey>) -> (int, Set<EntityKey>, Option<EntityKey>) {
    let key = match entity {
        Some(e) => e,
        None => EntityKey::Id(next_id as usize),
    };
    (
        if entity is None { next_id + 1 } else { next_id },
        held.insert(key),
        if held.contains(key) { None } else { Some(key) },
    )
}

/// What a run of spawns, asked for `entities` in turn, gives back.
pub open spec fn spawn_results(next_id: int, held: Set<EntityKey>, entities: Seq<Option<EntityKey>>) -> Seq<Option<EntityKey>>
    decreases entities.len(),
{
    if entities.len() == 0 {
        Seq::empty()
    } else {
        let (next2, held2, r) = spawn_step(next_id, held, entities[0]);
        seq![r] + spawn_results(next2, held2, entities.drop_first())
    }
}

/// One run of a system: a reading one or a changing one, by its position
/// among the systems of that sort.
pub ghost enum SystemRun {
    Read(int),
    Change(int),
}

/// The runs that one round of the systems makes: every reading system in the
/// order they were added, then every changing system in the order they were
/// added, each once.
pub open spec fn one_round(reads: nat, changes: nat) -> Seq<SystemRun> {
    Seq::new(reads, |i: int| SystemRun::Read(i)) + Seq::new(changes, |i: int| SystemRun::Change(i))
}

/// Entities, their components, the world's resources, and the systems run on them.
pub struct World<V, R, S, M> {
    next_entity: usize,
    pub components: ComponentsStorage<V>,
    pub resources: ResourceStorage<R>,
    systems: Vec<S>,
    systems_mut: Vec<M>,
    entities: EntitySet,
    runs: Ghost<Seq<SystemRun>>,
}

impl<V, R, S: System<V, R>, M: SystemMut<V, R>> World<V, R, S, M> {
    /// The number that the next unnamed entity gets.
    pub closed spec fn next_id(&self) -> usize {
        self.next_entity
    }

    /// The entities spawned so far.
    pub closed spec fn entities(&self) -> Set<EntityKey> {
        self.entities@
    }

    /// The systems that only read, in the order they run.
    pub closed spec fn systems(&self) -> Seq<S> {
        self.systems@
    }

    /// The systems that may change the world, in the order they run.
    pub closed spec fn systems_mut(&self) -> Seq<M> {
        self.systems_mut@
    }

    /// Every run of a system so far, in the order they happened.
    pub closed spec fn run_log(&self) -> Seq<SystemRun> {
        self.runs@
    }

    /// For each kind, the components of that kind by holder.
    pub closed spec fn components_view(&self) -> Map<KindKey, Map<EntityKey, V>> {
        self.components@
    }

    /// The resources, by kind.
    pub closed spec fn resources_view(&self) -> Map<KindKey, R> {
        self.resources@
    }

    /// The component of kind `kind` that `entity` holds, if any.
    pub open spec fn component(&self, kind: KindKey, entity: EntityKey) -> Option<V> {
        component_in(self.components_view(), kind, entity)
    }

    /// An empty world.
    pub fn new() -> (w: Self)
        ensures
            w.run_log() == Seq::<SystemRun>::empty(),
            w.next_id() == 0,
            w.entities() == Set::<EntityKey>::empty(),
            w.components_view() == Map::<KindKey, Map<EntityKey, V>>::empty(),
            w.resources_view() == Map::<KindKey, R>::empty(),
            w.systems().len() == 0,
            w.systems_mut().len() == 0,
    {
        World {
            next_entity: 0,
            components: ComponentsStorage::new(),
            systems: Vec::new(),
            systems_mut: Vec::new(),
            resources: ResourceStorage::new(),
            entities: EntitySet::new(),
            runs: Ghost(Seq::empty()),
        }
    }

    /// Brings `entity` into the world, or, when none is given, the next numbered
    /// entity (which uses up that number). Gives the entity back when it is new,
    /// `None` when the world already held it.
    pub fn spawn(&mut self, entity: Option<Entity>) -> (r: Option<Entity>)
        requires
            entity is None ==> old(self).next_id() < usize::MAX,
        ensures
            final(self).run_log() == old(self).run_log(),
            final(self).next_id() == (if entity is None { old(self).next_id() + 1 } else { old(self).next_id() as int }),
            final(self).entities() == old(self).entities().insert(spawned_key(old(self).next_id(), entity)),
            r is Some <==> !old(self).entities().contains(spawned_key(old(self).next_id(), entity)),
            r matches Some(e) ==> e@ == spawned_key(old(self).next_id(), entity),
            spawn_step(old(self).next_id() as int, old(self).entities(), option_key(entity))
                == (final(self).next_id() as int, final(self).entities(), option_key(r)),
            final(self).components_view() == old(self).components_view(),
            final(self).resources_view() == old(self).resources_view(),
            final(self).systems() == old(self).systems(),
            final(self).systems_mut() == old(self).systems_mut(),
    {
        let entity = match entity {
            Some(e) => e,
            None => {
                let e = Entity::Id(self.next_entity);
                self.next_entity = self.next_entity + 1;
                e
            },
        };
        let kept = entity.duplicate();
        if self.entities.insert(entity) {
            Some(kept)
        } else {
            None
        }
    }

    /// Whether `spawn(None)` can be called: numbers are left for unnamed entities.
    pub fn can_spawn_unnamed(&self) -> (r: bool)
        ensures
            r == (self.next_id() < usize::MAX),
    {
        self.next_entity < usize::MAX
    }

    /// Runs every reading system once, in the order they were added, on the
    /// world as it is, then every changing system once, in the order they were
    /// added, each on the world the one before it left.
    pub fn run_systems(&mut self)
        ensures
            final(self).run_log() == old(self).run_log() + one_round(old(self).systems().len(), old(self).systems_mut().len()),
            final(self).next_id() == old(self).next_id(),
            final(self).entities() == old(self).entities(),
            final(self).systems() == old(self).systems(),
            forall|i: int| 0 <= i < old(self).systems().len() ==>
                #[trigger] old(self).systems()[i].ran(old(self).components_view(), old(self).resources_view()),
            exists|components: Seq<Map<KindKey, Map<EntityKey, V>>>, resources: Seq<Map<KindKey, R>>|
                ran_in_order(old(self).systems_mut(), final(self).systems_mut(), components, resources)
                && components[0] == old(self).components_view()
                && resources[0] == old(self).resources_view()
                && components.last() == final(self).components_view()
                && resources.last() == final(self).resources_view(),
            final(self).systems_mut().len() == old(self).systems_mut().len(),
            old(self).systems_mut().len() == 0 ==> final(self).components_view() == old(self).components_view()
                && final(self).resources_view() == old(self).resources_view(),
    {
        let mut i: usize = 0;
        while i < self.systems.len()
            invariant
                i <= self.systems@.len(),
                self.systems@ == old(self).systems@,
                self.components@ == old(self).components@,
                self.resources@ == old(self).resources@,
                self.next_entity == old(self).next_entity,
                self.entities == old(self).entities,
                self.systems_mut == old(self).systems_mut,
                forall|j: int| 0 <= j < i ==> #[trigger] self.systems@[j].ran(self.components@, self.resources@),
                self.runs@ == old(self).runs@ + Seq::new(i as nat, |j: int| SystemRun::Read(j)),
            decreases self.systems@.len() - i,
        {
            self.systems[i].run(&self.components, &self.resources);
            proof {
                assert(Seq::new((i + 1) as nat, |j: int| SystemRun::Read(j))
                    =~= Seq::new(i as nat, |j: int| SystemRun::Read(j)).push(SystemRun::Read(i as int)));
                self.runs@ = self.runs@.push(SystemRun::Read(i as int));
            }
            i = i + 1;
        }
        let ghost reads = self.runs@;
        let mut pending: Vec<M> = Vec::new();
        std::mem::swap(&mut pending, &mut self.systems_mut);
        let ghost start = pending@;
        let ghost mut comps: Seq<Map<KindKey, Map<EntityKey, V>>> = seq![self.components@];
        let ghost mut ress: Seq<Map<KindKey, R>> = seq![self.resources@];
        let mut done: Vec<M> = Vec::new();
        while pending.len() > 0
            invariant
                start == old(self).systems_mut@,
                pending@ == start.skip(done@.len() as int),
                done@.len() <= start.len(),
                ran_in_order(start.take(done@.len() as int), done@, comps, ress),
                comps[0] == old(self).components@,
                ress[0] == old(self).resources@,
                comps.last() == self.components@,
                ress.last() == self.resources@,
                self.next_entity == old(self).next_entity,
                self.entities == old(self).entities,
                self.systems@ == old(self).systems@,
                self.runs@ == reads + Seq::new(done@.len(), |j: int| SystemRun::Change(j)),
            decreases pending@.len(),
        {
            let ghost k = done@.len() as int;
            let ghost c0 = self.components@;
            let ghost r0 = self.resources@;
            let mut system = pending.remove(0);
            let ghost before = system;
            proof { assert(before == start[k]); }
            system.run(&mut self.components, &mut self.resources);
            done.push(system);
            proof {
                assert(Seq::new((k + 1) as nat, |j: int| SystemRun::Change(j))
                    =~= Seq::new(k as nat, |j: int| SystemRun::Change(j)).push(SystemRun::Change(k)));
                self.runs@ = self.runs@.push(SystemRun::Change(k));
                comps = comps.push(self.components@);
                ress = ress.push(self.resources@);
                assert(start.take(k + 1) =~= start.take(k).push(before));
                assert(pending@ =~= start.skip(k + 1));
                let b = start.take(k + 1);
                assert forall|j: int| 0 <= j < b.len() implies #[trigger] b[j].ran(
                    done@[j], comps[j], ress[j], comps[j + 1], ress[j + 1]) by {
                    if j < k {
                        assert(start.take(k)[j] == b[j]);
                    }
                }
            }
        }
        proof {
            assert(start.take(done@.len() as int) =~= start);
        }
        self.systems_mut = done;
        proof {
            assert(ran_in_order(old(self).systems_mut(), self.systems_mut(), comps, ress));
            assert(comps.last() == self.components_view());
            assert(ress.last() == self.resources_view());
            assert(self.run_log() =~= old(self).run_log() + one_round(old(self).systems().len(), old(self).systems_mut().len()));
        }
    }

    /// Adds a system that only reads; it runs after those added before it.
    pub fn add_system(&mut self, system: S)
        ensures
            final(self).run_log() == old(self).run_log(),
            final(self).systems() == old(self).systems().push(system),
            final(self).systems_mut() == old(self).systems_mut(),
            final(self).next_id() == old(self).next_id(),
            final(self).entities() == old(self).entities(),
            final(self).components_view() == old(self).components_view(),
            final(self).resources_view() == old(self).resources_view(),
    {
        self.systems.push(system);
    }

    /// Adds a system that may change the world; it runs after those added before it.
    pub fn add_system_mut(&mut self, system: M)
        ensures
            final(self).run_log() == old(self).run_log(),
            final(self).systems_mut() == old(self).systems_mut().push(system),
            final(self).systems() == old(self).systems(),
            final(self).next_id() == old(self).next_id(),
            final(self).entities() == old(self).entities(),
            final(self).components_view() == old(self).components_view(),
            final(self).resources_view() == old(self).resources_view(),
    {
        self.systems_mut.push(system);
    }

    /// Runs `system` once on this world.
    pub fn run_system<Sys: System<V, R>>(&self, system: &Sys)
        ensures
            system.ran(self.components_view(), self.resources_view()),
    {
        system.run(&self.components, &self.resources);
    }

    /// The world's components, by kind and holder.
    pub fn components(&self) -> (c: &ComponentsStorage<V>)
        ensures
            c@ == self.components_view(),
    {
        &self.components
    }

    /// The world's resources, by kind.
    pub fn resources(&self) -> (r: &ResourceStorage<R>)
        ensures
            r@ == self.resources_view(),
    {
        &self.resources
    }

    /// Gives `entity` the component `component` of kind `kind`.
    pub fn add_component(&mut self, kind: KindKey, entity: &Entity, component: V)
        ensures
            final(self).run_log() == old(self).run_log(),
            final(self).components_view() == with_component(old(self).components_view(), kind, entity@, component),
            final(self).resources_view() == old(self).resources_view(),
            final(self).entities() == old(self).entities(),
            final(self).next_id() == old(self).next_id(),
            final(self).systems() == old(self).systems(),
            final(self).systems_mut() == old(self).systems_mut(),
    {
        self.components.add_component(kind, entity, component);
    }

    /// Takes away the component of kind `kind` that `entity` holds.
    pub fn remove_component(&mut self, kind: KindKey, entity: &Entity) -> (r: Option<V>)
        ensures
            final(self).run_log() == old(self).run_log(),
            r == old(self).component(kind, entity@),
            final(self).components_view() == without_component(old(self).components_view(), kind, entity@),
            final(self).resources_view() == old(self).resources_view(),
            final(self).entities() == old(self).entities(),
            final(self).next_id() == old(self).next_id(),
            final(self).systems() == old(self).systems(),
            final(self).systems_mut() == old(self).systems_mut(),
    {
        self.components.remove_component(kind, entity)
    }

    /// The component of kind `kind` that `entity` holds.
    pub fn get_component(&self, kind: KindKey, entity: &Entity) -> (r: Option<&V>)
        ensures
            match r {
                Some(v) => self.component(kind, entity@) == Some(*v),
                None => self.component(kind, entity@) is None,
            },
    {
        self.components.get_component(kind, entity)
    }

    /// The component of kind `kind` that `entity` holds, to change it.
    pub fn get_mut_component(&mut self, kind: KindKey, entity: &Entity) -> (r: Option<&mut V>)
        ensures
            final(self).run_log() == old(self).run_log(),
            match r {
                Some(v) => old(self).component(kind, entity@) == Some(*v)
                    && final(self).components_view() == old(self).components_view().insert(
                        kind, old(self).components_view()[kind].insert(entity@, *final(v))),
                None => old(self).component(kind, entity@) is None
                    && final(self).components_view() == old(self).components_view(),
            },
            final(self).resources_view() == old(self).resources_view(),
            final(self).entities() == old(self).entities(),
            final(self).next_id() == old(self).next_id(),
            final(self).systems() == old(self).systems(),
            final(self).systems_mut() == old(self).systems_mut(),
    {
        self.components.get_component_mut(kind, entity)
    }
}

} // verus!

verus! {

/// The second spawn of one entity is refused: once spawned, the entity is held.
pub proof fn law_spawn_twice(entities: Set<EntityKey>, next_id: usize, entity: Entity)
    ensures
        entities.insert(spawned_key(next_id, Some(entity))).contains(spawned_key(next_id, Some(entity))),
        entities.insert(spawned_key(next_id, Some(entity))).insert(spawned_key(next_id, Some(entity)))
            == entities.insert(spawned_key(next_id, Some(entity))),
{
    assert(entities.insert(spawned_key(next_id, Some(entity))).insert(spawned_key(next_id, Some(entity)))
        =~= entities.insert(spawned_key(next_id, Some(entity))));
}

/// Two unnamed spawns in a row bring in two different entities.
pub proof fn law_unnamed_spawns_differ(next_id: usize)
    requires
        next_id < usize::MAX,
    ensures
        spawned_key(next_id, None) != spawned_key((next_id + 1) as usize, None),
{
}

} // verus!

verus! {

/// In any run of spawns, no entity is given back twice, and none that was
/// held before the run.
pub proof fn law_spawns_distinct(next_id: int, held: Set<EntityKey>, entities: Seq<Option<EntityKey>>)
    requires
        0 <= next_id,
        next_id + entities.len() <= usize::MAX,
    ensures
        spawn_results(next_id, held, entities).len() == entities.len(),
        forall|i: int| 0 <= i < entities.len() && (#[trigger] spawn_results(next_id, held, entities)[i]) is Some
            ==> !held.contains(spawn_results(next_id, held, entities)[i]->0),
        forall|i: int, j: int| 0 <= i < j < entities.len()
            && (#[trigger] spawn_results(next_id, held, entities)[i]) is Some
            && (#[trigger] spawn_results(next_id, held, entities)[j]) is Some
            ==> spawn_results(next_id, held, entities)[i] != spawn_results(next_id, held, entities)[j],
    decreases entities.len(),
{
    if entities.len() > 0 {
        let (next2, held2, r) = spawn_step(next_id, held, entities[0]);
        let rest = entities.drop_first();
        law_spawns_distinct(next2, held2, rest);
        let res = spawn_results(next_id, held, entities);
        let tail = spawn_results(next2, held2, rest);
        assert(res == seq![r] + tail);
        assert forall|i: int| 0 <= i < entities.len() && (#[trigger] res[i]) is Some implies !held.contains(res[i]->0) by {
            if i > 0 {
                assert(res[i] == tail[i - 1]);
            }
        }
        assert forall|i: int, j: int| 0 <= i < j < entities.len() && (#[trigger] res[i]) is Some && (#[trigger] res[j]) is Some
            implies res[i] != res[j] by {
            assert(res[j] == tail[j - 1]);
            if i > 0 {
                assert(res[i] == tail[i - 1]);
            } else {
                assert(held2.contains(r->0));
            }
        }
    }
}

/// In one round, the reading systems run first, each once and in the order
/// they were added, and the changing systems after them in the same way.
pub proof fn law_round_order(reads: nat, changes: nat)
    ensures
        one_round(reads, changes).len() == reads + changes,
        forall|i: int| 0 <= i < reads ==> #[trigger] one_round(reads, changes)[i] == SystemRun::Read(i),
        forall|j: int| 0 <= j < changes ==> #[trigger] one_round(reads, changes)[reads + j] == SystemRun::Change(j),
{
}

/// On a new world, which holds no entity and numbers from `0`, the `i`-th of
/// `n` unnamed spawns gives back the entity numbered `i`; so they all differ.
pub proof fn law_new_world_unnamed_spawns(n: nat)
    requires
        n <= usize::MAX,
    ensures
        spawn_results(0, Set::<EntityKey>::empty(), Seq::new(n, |_i: int| None::<EntityKey>))
            == Seq::new(n, |i: int| Some(EntityKey::Id(i as usize))),
{
    law_unnamed_spawns_count_up(0, Set::<EntityKey>::empty(), n);
    assert(Seq::new(n, |i: int| Some(EntityKey::Id((0 + i) as usize)))
        =~= Seq::new(n, |i: int| Some(EntityKey::Id(i as usize))));
}

/// An unnamed spawn on a world that holds no entity numbered from its next
/// number on leaves a world of which the same holds.
pub proof fn law_unnamed_spawn_keeps_numbers_free(next_id: int, held: Set<EntityKey>)
    requires
        0 <= next_id < usize::MAX,
        holds_no_id_from(held, next_id),
    ensures
        spawn_step(next_id, held, None).0 == next_id + 1,
        holds_no_id_from(spawn_step(next_id, held, None).1, next_id + 1),
        spawn_step(next_id, held, None).2 == Some(EntityKey::Id(next_id as usize)),
{
}

/// Held entities numbered `next_id` or more: none.
pub open spec fn holds_no_id_from(held: Set<EntityKey>, next_id: int) -> bool {
    forall|k: usize| next_id <= k ==> !held.contains(EntityKey::Id(k))
}

/// Unnamed spawns count up: the `i`-th one gives back the entity numbered
/// `next_id + i` when no entity from that number on was held.
pub proof fn law_unnamed_spawns_count_up(next_id: int, held: Set<EntityKey>, n: nat)
    requires
        0 <= next_id,
        next_id + n <= usize::MAX,
        holds_no_id_from(held, next_id),
    ensures
        spawn_results(next_id, held, Seq::new(n, |_i: int| None::<EntityKey>))
            == Seq::new(n, |i: int| Some(EntityKey::Id((next_id + i) as usize))),
    decreases n,
{
    let ins = Seq::new(n, |_i: int| None::<EntityKey>);
    if n > 0 {
        let key = EntityKey::Id(next_id as usize);
        let held2 = held.insert(key);
        assert(holds_no_id_from(held2, next_id + 1));
        law_unnamed_spawns_count_up(next_id + 1, held2, (n - 1) as nat);
        assert(ins.drop_first() =~= Seq::new((n - 1) as nat, |_i: int| None::<EntityKey>));
        assert(spawn_results(next_id, held, ins) =~= Seq::new(n, |i: int| Some(EntityKey::Id((next_id + i) as usize))));
    } else {
        assert(spawn_results(next_id, held, ins) =~= Seq::new(n, |i: int| Some(EntityKey::Id((next_id + i) as usize))));
    }
}

} // verus!
