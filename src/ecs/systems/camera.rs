//! Moves each camera to its focus, where every camera must have a focus.
use vstd::prelude::*;
use crate::ecs::systems::camera_focus::{follow_focus, follow_world};
use crate::ecs::systems::SystemError;
use crate::ecs::world::{World, WorldModel};

verus! {

pub struct System;

impl System {
    /// Copies each camera's focus position into the camera's own transform;
    /// a camera without a focus is an error.
    pub fn run(&mut self, world: &mut World) -> (r: Result<(), SystemError>)
        requires
            old(world)@.wf(),
        ensures
            final(world)@ == (WorldModel { transforms: final(world)@.transforms, ..old(world)@ }),
            match r {
                Ok(()) => follow_world(old(world)@, true) == Ok::<WorldModel, SystemError>(final(world)@),
                Err(err) => follow_world(old(world)@, true) == Err::<WorldModel, SystemError>(err),
            },
    {
        follow_focus(world, true)
    }
}

} // verus!
