//! Entity-component simulation core for a small 2D scene: component
//! containers keyed by entity, deterministic joins, per-tick update systems
//! and a dependency-ordered dispatcher.
use vstd::prelude::*;

pub mod ecs;
pub mod mainstate;

verus! {

} // verus!
