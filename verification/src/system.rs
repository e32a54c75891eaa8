use vstd::prelude::*;
use crate::entity::EntityKey;
use crate::resource::ResourceStorage;
use crate::storage::{ComponentsStorage, KindKey};

verus! {

/// Work done on a world's components and resources without changing them.
pub trait System<V, R> {
    /// What a run of this system on these components and resources
    /// guarantees; nothing, unless the system says more.
    open spec fn ran(&self, components: Map<KindKey, Map<EntityKey, V>>, resources: Map<KindKey, R>) -> bool {
        true
    }

    /// Does the work.
    fn run(&self, components: &ComponentsStorage<V>, resources: &ResourceStorage<R>)
        ensures
            self.ran(components@, resources@),
    ;
}

/// Work that may change a world's components and resources.
pub trait SystemMut<V, R>: Sized {
    /// What a run of this system guarantees of the system after it and of the
    /// components and resources before and after it; nothing, unless the
    /// system says more.
    open spec fn ran(
        &self,
        after: Self,
        components_before: Map<KindKey, Map<EntityKey, V>>,
        resources_before: Map<KindKey, R>,
        components_after: Map<KindKey, Map<EntityKey, V>>,
        resources_after: Map<KindKey, R>,
    ) -> bool {
        true
    }

    /// Does the work.
    fn run(&mut self, components: &mut ComponentsStorage<V>, resources: &mut ResourceStorage<R>)
        ensures
            old(self).ran(*final(self), old(components)@, old(resources)@, final(components)@, final(resources)@),
    ;
}

/// `before` run one after another, in order, took the components and
/// resources through the states `components[i]`, `resources[i]`, and became
/// `after`.
pub open spec fn ran_in_order<V, R, M: SystemMut<V, R>>(
    before: Seq<M>,
    after: Seq<M>,
    components: Seq<Map<KindKey, Map<EntityKey, V>>>,
    resources: Seq<Map<KindKey, R>>,
) -> bool {
    &&& after.len() == before.len()
    &&& components.len() == before.len() + 1
    &&& resources.len() == before.len() + 1
    &&& forall|i: int| 0 <= i < before.len() ==> #[trigger] before[i].ran(
        after[i], components[i], resources[i], components[i + 1], resources[i + 1])
}

} // verus!
