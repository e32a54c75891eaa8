use vstd::prelude::*;
use std::collections::VecDeque;

verus! {

/// A descriptor pool, by its Vulkan handle.
pub type PoolHandle = u64;

/// How many descriptors of one type a pool holds.
#[derive(Clone, Copy)]
pub struct PoolSize {
    pub ty: i32,
    pub descriptor_count: u32,
}

/// Where the pool for the next allocation comes from.
pub enum PoolSource {
    /// A pool that was ready, taken off the end of the ready list.
    Ready(PoolHandle),
    /// A new pool, to be created for this many sets.
    Create(u32),
}

/// What comes after an attempt to allocate a descriptor set from a pool.
pub enum AllocationNext {
    /// The set was allocated.
    Done,
    /// The pool was full: get another pool and try once more.
    Retry,
}

/// The pool count that follows `n`: half as many again.
pub open spec fn grown(n: u32) -> int {
    n + n / 2
}

/// Keeps descriptor pools apart by whether they still have room, and grows the
/// size of the pools it asks for.
pub struct DescriptorAllocator {
    full_pools: VecDeque<PoolHandle>,
    ready_pools: VecDeque<PoolHandle>,
    pool_sizes: Vec<PoolSize>,
    max_sets: u32,
}

impl DescriptorAllocator {
    /// Pools that ran out of room.
    pub closed spec fn full(&self) -> Seq<PoolHandle> {
        self.full_pools@
    }

    /// Pools to allocate from, the last one first.
    pub closed spec fn ready(&self) -> Seq<PoolHandle> {
        self.ready_pools@
    }

    /// How many sets the next new pool is made for.
    pub closed spec fn sets_per_pool(&self) -> u32 {
        self.max_sets
    }

    /// The sizes that each new pool is made with.
    pub closed spec fn sizes(&self) -> Seq<PoolSize> {
        self.pool_sizes@
    }

    /// An allocator with no pools yet.
    pub fn new(max_sets: u32, pool_sizes: Vec<PoolSize>) -> (a: Self)
        ensures
            a.sets_per_pool() == max_sets,
            a.sizes() == pool_sizes@,
            a.full() == Seq::<PoolHandle>::empty(),
            a.ready() == Seq::<PoolHandle>::empty(),
    {
        DescriptorAllocator { max_sets, pool_sizes, full_pools: VecDeque::new(), ready_pools: VecDeque::new() }
    }

    /// The sizes that each new pool is made with.
    pub fn pool_sizes(&self) -> (r: &Vec<PoolSize>)
        ensures
            r@ == self.sizes(),
    {
        &self.pool_sizes
    }

    /// The pools to reset, ready ones first, each in list order.
    pub fn pools_to_reset(&self) -> (r: Vec<PoolHandle>)
        ensures
            r@ == self.ready() + self.full(),
    {
        let mut r: Vec<PoolHandle> = Vec::new();
        let mut i: usize = 0;
        while i < self.ready_pools.len()
            invariant
                i <= self.ready_pools@.len(),
                r@ == self.ready_pools@.take(i as int),
            decreases self.ready_pools@.len() - i,
        {
            r.push(self.ready_pools[i]);
            proof { assert(self.ready_pools@.take(i + 1) =~= self.ready_pools@.take(i as int).push(self.ready_pools@[i as int])); }
            i = i + 1;
        }
        proof { assert(self.ready_pools@.take(i as int) =~= self.ready_pools@); }
        let mut j: usize = 0;
        while j < self.full_pools.len()
            invariant
                j <= self.full_pools@.len(),
                r@ == self.ready_pools@ + self.full_pools@.take(j as int),
            decreases self.full_pools@.len() - j,
        {
            r.push(self.full_pools[j]);
            proof { assert(self.full_pools@.take(j + 1) =~= self.full_pools@.take(j as int).push(self.full_pools@[j as int])); }
            j = j + 1;
        }
        proof { assert(self.full_pools@.take(j as int) =~= self.full_pools@); }
        r
    }

    /// After every pool was reset: the full pools join the end of the ready list.
    pub fn reclaim_full_pools(&mut self)
        ensures
            final(self).ready() == old(self).ready() + old(self).full(),
            final(self).full() == Seq::<PoolHandle>::empty(),
            final(self).sets_per_pool() == old(self).sets_per_pool(),
            final(self).sizes() == old(self).sizes(),
    {
        self.ready_pools.append(&mut self.full_pools);
    }

    /// Hands out every pool, ready ones first, and keeps none: the caller destroys them.
    pub fn take_all_pools(&mut self) -> (r: Vec<PoolHandle>)
        ensures
            r@ == old(self).ready() + old(self).full(),
            final(self).ready() == Seq::<PoolHandle>::empty(),
            final(self).full() == Seq::<PoolHandle>::empty(),
            final(self).sets_per_pool() == old(self).sets_per_pool(),
            final(self).sizes() == old(self).sizes(),
    {
        let r = self.pools_to_reset();
        self.ready_pools.clear();
        self.full_pools.clear();
        r
    }

    /// Whether `next_pool` can be called: a pool is ready, or the size of the
    /// pools grows within a `u32`.
    pub fn next_pool_fits(&self) -> (r: bool)
        ensures
            r == (self.ready().len() > 0 || grown(self.sets_per_pool()) <= u32::MAX),
    {
        self.ready_pools.len() > 0 || self.max_sets <= u32::MAX - self.max_sets / 2
    }

    /// The pool for the next allocation: the last ready one, or else a new one for
    /// the current number of sets, after which new pools are made half as big again.
    pub fn next_pool(&mut self) -> (r: PoolSource)
        requires
            old(self).ready().len() == 0 ==> grown(old(self).sets_per_pool()) <= u32::MAX,
        ensures
            final(self).full() == old(self).full(),
            final(self).sizes() == old(self).sizes(),
            old(self).ready().len() > 0 ==> r == PoolSource::Ready(old(self).ready().last())
                && final(self).ready() == old(self).ready().drop_last()
                && final(self).sets_per_pool() == old(self).sets_per_pool(),
            old(self).ready().len() == 0 ==> r == PoolSource::Create(old(self).sets_per_pool())
                && final(self).ready() == old(self).ready()
                && final(self).sets_per_pool() == grown(old(self).sets_per_pool()),
    {
        match self.ready_pools.pop_back() {
            Some(pool) => PoolSource::Ready(pool),
            None => {
                let sets = self.max_sets;
                self.max_sets = self.max_sets + self.max_sets / 2;
                PoolSource::Create(sets)
            },
        }
    }

    /// Records how an attempt to allocate from `pool` went. A first attempt that
    /// works puts the pool back on the ready list twice over; one that fails
    /// files the pool as full and asks for a retry; a retry must work, and puts
    /// its pool back once.
    pub fn record_attempt(&mut self, pool: PoolHandle, first_attempt: bool, allocated: bool) -> (r: AllocationNext)
        requires
            first_attempt || allocated,
        ensures
            final(self).sets_per_pool() == old(self).sets_per_pool(),
            final(self).sizes() == old(self).sizes(),
            first_attempt && allocated ==> r == AllocationNext::Done
                && final(self).ready() == old(self).ready().push(pool).push(pool)
                && final(self).full() == old(self).full(),
            first_attempt && !allocated ==> r == AllocationNext::Retry
                && final(self).ready() == old(self).ready()
                && final(self).full() == old(self).full().push(pool),
            !first_attempt ==> r == AllocationNext::Done
                && final(self).ready() == old(self).ready().push(pool)
                && final(self).full() == old(self).full(),
    {
        if first_attempt {
            if allocated {
                self.ready_pools.push_back(pool);
                self.ready_pools.push_back(pool);
                AllocationNext::Done
            } else {
                self.full_pools.push_back(pool);
                AllocationNext::Retry
            }
        } else {
            self.ready_pools.push_back(pool);
            AllocationNext::Done
        }
    }
}

} // verus!

verus! {

/// One binding of a descriptor set layout.
#[derive(Clone, Copy)]
pub struct LayoutBinding {
    pub binding: u32,
    pub descriptor_type: i32,
    pub descriptor_count: u32,
    pub stage_flags: u32,
}

/// `b` also seen by the shader stages `stages`.
pub open spec fn with_stages(b: LayoutBinding, stages: u32) -> LayoutBinding {
    LayoutBinding { stage_flags: b.stage_flags | stages, ..b }
}

/// Collects the bindings of a descriptor set layout; every binding is also seen
/// by the builder's shader stages.
pub struct DescriptorSetLayoutCreateInfoBuilder {
    stage_flags: u32,
    bindings: Vec<LayoutBinding>,
}

impl DescriptorSetLayoutCreateInfoBuilder {
    /// The shader stages added to every binding.
    pub closed spec fn stages(&self) -> u32 {
        self.stage_flags
    }

    /// The bindings collected, in order.
    pub closed spec fn bindings(&self) -> Seq<LayoutBinding> {
        self.bindings@
    }

    /// A builder with no bindings and no shader stage.
    pub fn new() -> (b: Self)
        ensures
            b.stages() == 0,
            b.bindings() == Seq::<LayoutBinding>::empty(),
    {
        DescriptorSetLayoutCreateInfoBuilder { stage_flags: 0, bindings: Vec::new() }
    }

    /// Adds a binding after those added before.
    pub fn add_binding(&mut self, binding: LayoutBinding) -> (r: &mut Self)
        ensures
            r.bindings() == old(self).bindings().push(binding),
            r.stages() == old(self).stages(),
            *final(self) == *final(r),
    {
        self.bindings.push(binding);
        self
    }

    /// Adds the builder's shader stages to every binding, and gives the bindings.
    pub fn build(&mut self) -> (r: &Vec<LayoutBinding>)
        ensures
            final(self).stages() == old(self).stages(),
            final(self).bindings().len() == old(self).bindings().len(),
            forall|i: int| 0 <= i < old(self).bindings().len() ==>
                #[trigger] final(self).bindings()[i] == with_stages(old(self).bindings()[i], old(self).stages()),
            r@ == final(self).bindings(),
    {
        let mut i: usize = 0;
        let ghost start = self.bindings@;
        while i < self.bindings.len()
            invariant
                i <= self.bindings@.len(),
                self.bindings@.len() == start.len(),
                self.stage_flags == old(self).stage_flags,
                start == old(self).bindings@,
                forall|j: int| 0 <= j < i ==> #[trigger] self.bindings@[j] == with_stages(start[j], self.stage_flags),
                forall|j: int| i <= j < start.len() ==> #[trigger] self.bindings@[j] == start[j],
            decreases start.len() - i,
        {
            let b = self.bindings[i];
            let flags = self.stage_flags;
            self.bindings.set(i, LayoutBinding { stage_flags: b.stage_flags | flags, ..b });
            i = i + 1;
        }
        &self.bindings
    }
}

} // verus!

verus! {

/// Reclaiming the full pools loses and adds no pool: the ready list after it
/// (the old ready list, then the old full list) followed by the now empty full
/// list holds, counted with repeats, the pools of both lists before it.
pub proof fn law_reclaim_keeps_pools(ready: Seq<PoolHandle>, full: Seq<PoolHandle>)
    ensures
        ((ready + full) + Seq::<PoolHandle>::empty()).to_multiset() == ready.to_multiset().add(full.to_multiset()),
{
    assert((ready + full) + Seq::<PoolHandle>::empty() =~= ready + full);
    vstd::seq_lib::lemma_multiset_commutative(ready, full);
}

/// New pools never get smaller, and grow once they are made for two sets or more.
pub proof fn law_pools_grow(n: u32)
    ensures
        grown(n) >= n,
        n >= 2 ==> grown(n) > n,
{
}

} // verus!
