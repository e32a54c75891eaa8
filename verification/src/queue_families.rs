use vstd::prelude::*;

verus! {

/// `VK_QUEUE_GRAPHICS_BIT`.
pub const QUEUE_GRAPHICS_BIT: u32 = 1;

/// What the selection reads of one queue family of a physical device.
#[derive(Clone, Copy)]
pub struct QueueFamilyInfo {
    pub queue_count: u32,
    pub queue_flags: u32,
    /// Whether the family can present to the surface; only asked of candidates.
    pub present_support: bool,
}

/// The queue families that graphics work and presentation go to.
#[derive(Clone, Copy)]
pub struct QueueFamilies {
    pub graphics: u32,
    pub present: u32,
}

/// A family with queues that do graphics work.
pub open spec fn is_candidate(queue_count: u32, queue_flags: u32) -> bool {
    queue_count > 0 && queue_flags & QUEUE_GRAPHICS_BIT == QUEUE_GRAPHICS_BIT
}

/// Whether a family is worth asking about presentation.
pub fn is_graphics_candidate(queue_count: u32, queue_flags: u32) -> (r: bool)
    ensures
        r == is_candidate(queue_count, queue_flags),
{
    queue_count > 0 && queue_flags & QUEUE_GRAPHICS_BIT == QUEUE_GRAPHICS_BIT
}

/// A family that does graphics work and presents.
pub open spec fn is_eligible(f: QueueFamilyInfo) -> bool {
    is_candidate(f.queue_count, f.queue_flags) && f.present_support
}

/// The position of the last eligible family of `s`.
pub open spec fn last_eligible(s: Seq<QueueFamilyInfo>) -> Option<int>
    decreases s.len(),
{
    if s.len() == 0 {
        None
    } else if is_eligible(s.last()) {
        Some(s.len() - 1)
    } else {
        last_eligible(s.drop_last())
    }
}

/// The position found is that of an eligible family.
pub proof fn lemma_last_eligible_bounds(s: Seq<QueueFamilyInfo>)
    ensures
        last_eligible(s) matches Some(i) ==> 0 <= i < s.len() && is_eligible(s[i]),
    decreases s.len(),
{
    if s.len() > 0 && !is_eligible(s.last()) {
        lemma_last_eligible_bounds(s.drop_last());
    }
}

impl QueueFamilies {
    /// The last family that does graphics work and presents, for both uses;
    /// there must be one.
    pub fn new(families: &Vec<QueueFamilyInfo>) -> (r: QueueFamilies)
        requires
            families@.len() <= u32::MAX + 1,
            last_eligible(families@) is Some,
        ensures
            r == (QueueFamilies { graphics: last_eligible(families@)->0 as u32, present: last_eligible(families@)->0 as u32 }),
    {
        match Self::select(families) {
            Some(f) => f,
            None => vstd::pervasive::unreached(),
        }
    }

    /// Picks the last family that does graphics work and presents, for both
    /// uses; `None` when there is none.
    pub fn select(families: &Vec<QueueFamilyInfo>) -> (r: Option<QueueFamilies>)
        requires
            families@.len() <= u32::MAX + 1,
        ensures
            match last_eligible(families@) {
                Some(i) => r == Some(QueueFamilies { graphics: i as u32, present: i as u32 }),
                None => r is None,
            },
            (exists|i: int| 0 <= i < families@.len() && #[trigger] families@[i].queue_count > 0
                && families@[i].queue_flags & QUEUE_GRAPHICS_BIT == QUEUE_GRAPHICS_BIT
                && families@[i].present_support) ==> r is Some,
            r matches Some(q) ==> q.graphics == q.present && q.graphics < families@.len()
                && families@[q.graphics as int].queue_count > 0
                && families@[q.graphics as int].queue_flags & QUEUE_GRAPHICS_BIT == QUEUE_GRAPHICS_BIT
                && families@[q.graphics as int].present_support,
    {
        proof {
            if exists|i: int| 0 <= i < families@.len() && #[trigger] families@[i].queue_count > 0
                && families@[i].queue_flags & QUEUE_GRAPHICS_BIT == QUEUE_GRAPHICS_BIT
                && families@[i].present_support {
                let i = choose|i: int| 0 <= i < families@.len() && #[trigger] families@[i].queue_count > 0
                    && families@[i].queue_flags & QUEUE_GRAPHICS_BIT == QUEUE_GRAPHICS_BIT
                    && families@[i].present_support;
                law_graphics_family_found(families@, i);
            }
            law_found_family_qualifies(families@);
        }
        let mut found: Option<u32> = None;
        let mut i: usize = 0;
        while i < families.len()
            invariant
                i <= families@.len(),
                families@.len() <= u32::MAX + 1,
                match last_eligible(families@.take(i as int)) {
                    Some(k) => found == Some(k as u32),
                    None => found is None,
                },
            decreases families@.len() - i,
        {
            let f = families[i];
            proof {
                assert(families@.take(i + 1).drop_last() =~= families@.take(i as int));
                assert(families@.take(i + 1).last() == f);
            }
            if f.queue_count > 0 && f.queue_flags & QUEUE_GRAPHICS_BIT == QUEUE_GRAPHICS_BIT && f.present_support {
                found = Some(i as u32);
            }
            i = i + 1;
        }
        proof { assert(families@.take(i as int) =~= families@); }
        match found {
            Some(k) => Some(QueueFamilies { graphics: k, present: k }),
            None => None,
        }
    }
}

} // verus!

verus! {

/// A family with at least one queue, the graphics bit among its flags and
/// presentation support is always found: the one selected is it or a later one.
pub proof fn law_graphics_family_found(families: Seq<QueueFamilyInfo>, i: int)
    requires
        0 <= i < families.len(),
        families[i].queue_count >= 1,
        families[i].queue_flags & QUEUE_GRAPHICS_BIT == QUEUE_GRAPHICS_BIT,
        families[i].present_support,
    ensures
        last_eligible(families) matches Some(k) && i <= k < families.len(),
    decreases families.len(),
{
    if i < families.len() - 1 && !is_eligible(families.last()) {
        assert(families.drop_last()[i] == families[i]);
        law_graphics_family_found(families.drop_last(), i);
    }
}

/// The family selected, if any, has at least one queue, the graphics bit among
/// its flags, and presentation support.
pub proof fn law_found_family_qualifies(families: Seq<QueueFamilyInfo>)
    ensures
        last_eligible(families) matches Some(k) ==> 0 <= k < families.len()
            && families[k].queue_count >= 1
            && families[k].queue_flags & QUEUE_GRAPHICS_BIT == QUEUE_GRAPHICS_BIT
            && families[k].present_support,
{
    lemma_last_eligible_bounds(families);
}

/// The family chosen does graphics work and presents, and no later family does.
pub proof fn law_selected_is_eligible(families: Seq<QueueFamilyInfo>)
    ensures
        last_eligible(families) matches Some(i) ==> 0 <= i < families.len() && is_eligible(families[i])
            && forall|j: int| i < j < families.len() ==> !is_eligible(#[trigger] families[j]),
        last_eligible(families) is None ==> forall|j: int| 0 <= j < families.len() ==> !is_eligible(#[trigger] families[j]),
    decreases families.len(),
{
    lemma_last_eligible_bounds(families);
    if families.len() > 0 && !is_eligible(families.last()) {
        law_selected_is_eligible(families.drop_last());
        assert forall|j: int| 0 <= j < families.len() - 1 implies families.drop_last()[j] == families[j] by {}
    }
}

} // verus!

verus! {

impl QueueFamilies {
    /// The families that queues are made in: the graphics one, then the present
    /// one when it is another.
    pub fn distinct_families(&self) -> (r: Vec<u32>)
        ensures
            r@ == (if self.graphics == self.present { seq![self.graphics] } else { seq![self.graphics, self.present] }),
    {
        let mut r: Vec<u32> = Vec::new();
        r.push(self.graphics);
        if self.graphics != self.present {
            r.push(self.present);
        }
        proof {
            if self.graphics == self.present {
                assert(r@ =~= seq![self.graphics]);
            } else {
                assert(r@ =~= seq![self.graphics, self.present]);
            }
        }
        r
    }
}

/// The position of the first physical device whose name is `wanted`.
pub fn find_device_by_name(names: &Vec<String>, wanted: &String) -> (r: Option<usize>)
    ensures
        match r {
            Some(i) => i < names@.len() && names@[i as int]@ == wanted@
                && forall|j: int| 0 <= j < i ==> (#[trigger] names@[j])@ != wanted@,
            None => forall|j: int| 0 <= j < names@.len() ==> (#[trigger] names@[j])@ != wanted@,
        },
{
    let mut i: usize = 0;
    while i < names.len()
        invariant
            i <= names@.len(),
            forall|j: int| 0 <= j < i ==> (#[trigger] names@[j])@ != wanted@,
        decreases names@.len() - i,
    {
        if names[i].eq(wanted) {
            return Some(i);
        }
        i = i + 1;
    }
    None
}

} // verus!
