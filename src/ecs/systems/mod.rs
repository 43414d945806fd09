//! The per-tick update systems.
use vstd::prelude::*;
use crate::ecs::components::Entity;

pub mod camera;
pub mod camera_focus;
pub mod camera_zoom;
pub mod control;
pub mod velocity;

verus! {

/// A fatal error of a system run: the scene holds a reference that does not
/// resolve, or lacks a component that a system needs.
#[derive(Clone, Copy, Debug, PartialEq, Eq, Structural)]
pub enum SystemError {
    /// The camera's focus entity has no transform.
    DanglingFocus { camera: Entity, focus: Entity },
    /// The entity has no transform to write back to.
    MissingTransform { entity: Entity },
    /// The camera has no focus entity where one is required.
    MissingFocus { camera: Entity },
}

/// Some entity among the first `j` of `s` has index `k`.
pub open spec fn in_prefix(s: Seq<Entity>, j: int, k: usize) -> bool {
    exists|p: int| 0 <= p < j && #[trigger] s[p] == (Entity { id: k })
}

} // verus!
