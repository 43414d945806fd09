use vstd::prelude::*;

pub mod components;
pub mod resources;
pub mod storage;
pub mod world;
pub mod systems;
pub mod dispatcher;

verus! {

/// A world with a container for every component type and the input
/// resource in place, and no entities yet.
pub fn registered_world() -> (w: world::World)
    ensures
        w@ == world::empty_world(),
        w@.wf(),
{
    world::World::new()
}

} // verus!
