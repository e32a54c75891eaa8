use vstd::prelude::*;

verus! {

/// Marks an entity as drawn from a mesh; it holds no data of its own yet.
pub struct Mesh {}

} // verus!
