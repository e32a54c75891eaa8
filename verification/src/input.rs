use vstd::prelude::*;
use std::collections::HashSet;

verus! {

broadcast use vstd::std_specs::hash::group_hash_axioms;

/// Stands for a key of the keyboard: one key, one number.
pub type KeyId = u64;

/// The keys held down.
pub struct Input {
    pressed: HashSet<KeyId>,
}

impl Input {
    /// The keys held down.
    pub closed spec fn view(&self) -> Set<KeyId> {
        self.pressed@
    }

    /// No key held down.
    pub fn new() -> (i: Self)
        ensures
            i@ == Set::<KeyId>::empty(),
    {
        Input { pressed: HashSet::new() }
    }

    /// Looks `key` up among the keys held down, and gives nothing back: the
    /// answer is dropped. `held` gives it.
    pub fn is_pressed(&self, key: KeyId) {
        let _found = self.pressed.get(&key).is_some();
    }

    /// Whether `key` is held down.
    pub fn held(&self, key: KeyId) -> (r: bool)
        ensures
            r == self@.contains(key),
    {
        self.pressed.get(&key).is_some()
    }

    /// `key` went down (`pressed`) or came up.
    pub fn handle_key_event(&mut self, key: KeyId, pressed: bool)
        ensures
            final(self)@ == (if pressed { old(self)@.insert(key) } else { old(self)@.remove(key) }),
    {
        if pressed {
            let _new = self.pressed.insert(key);
        } else {
            let _held = self.pressed.remove(&key);
        }
    }
}

} // verus!

verus! {

/// A key is held down from the event that presses it until the one that
/// releases it, whatever other keys do in between.
pub proof fn law_pressed_until_released(held: Set<KeyId>, key: KeyId, other: KeyId, other_pressed: bool)
    requires
        other != key,
    ensures
        held.insert(key).contains(key),
        (if other_pressed { held.insert(key).insert(other) } else { held.insert(key).remove(other) }).contains(key),
        !held.insert(key).remove(key).contains(key),
{
}

} // verus!
