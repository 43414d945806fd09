//! Updates transforms from velocities.
use vstd::prelude::*;
use crate::ecs::components::{Entity, lemma_scaled_fits, saturate, saturate_i128, Point2, Transform, Velocity};
use crate::ecs::storage::ComponentStorage;
use crate::ecs::systems::in_prefix;
use crate::ecs::world::{joined, lemma_joined, World, WorldModel};

verus! {

/// The transform after moving with velocity `v` for `dt` units of time.
pub open spec fn integrated(t: Transform, v: Velocity, dt: nat) -> Transform {
    Transform {
        pos: Point2 {
            x: saturate(t.pos.x + v.spatial.x * dt) as i64,
            y: saturate(t.pos.y + v.spatial.y * dt) as i64,
        },
        rot: saturate(t.rot + v.angular * dt) as i64,
        scale: t.scale,
    }
}

/// The world after every entity with a transform and a velocity has moved
/// for the world's elapsed time.
pub open spec fn integrate_world(w: WorldModel) -> WorldModel {
    WorldModel {
        transforms: Map::new(
            |k: usize| w.transforms.contains_key(k),
            |k: usize|
                if w.velocities.contains_key(k) {
                    integrated(w.transforms[k], w.velocities[k], w.delta as nat)
                } else {
                    w.transforms[k]
                },
        ),
        ..w
    }
}

/// With no elapsed time, integration leaves every transform as it is.
pub proof fn lemma_integrate_zero_dt(w: WorldModel)
    requires
        w.delta == 0,
    ensures
        integrate_world(w) == w,
{
    assert forall|k: usize| #[trigger] w.transforms.contains_key(k) && w.velocities.contains_key(k) implies integrated(
        w.transforms[k],
        w.velocities[k],
        0,
    ) == w.transforms[k] by {
        let t = w.transforms[k];
        let v = w.velocities[k];
        assert(v.spatial.x * 0 == 0 && v.spatial.y * 0 == 0 && v.angular * 0 == 0);
    }
    assert(integrate_world(w).transforms =~= w.transforms);
}

fn moved(p: i64, v: i64, dt: u64) -> (r: i64)
    ensures
        r as int == saturate(p + v * dt),
{
    proof {
        lemma_scaled_fits(v as int, dt as int);
    }
    saturate_i128(p as i128 + v as i128 * dt as i128)
}

/// Moves one transform with velocity `v` for `dt` units of time.
pub fn integrate(t: Transform, v: Velocity, dt: u64) -> (r: Transform)
    ensures
        r == integrated(t, v, dt as nat),
{
    Transform {
        pos: Point2 { x: moved(t.pos.x, v.spatial.x, dt), y: moved(t.pos.y, v.spatial.y, dt) },
        rot: moved(t.rot, v.angular, dt),
        scale: t.scale,
    }
}

pub struct System;

impl System {
    /// For every entity with both a transform and a velocity:
    /// `pos += spatial * dt` and `rot += angular * dt`.
    pub fn run(&mut self, world: &mut World)
        requires
            old(world)@.wf(),
        ensures
            final(world)@ == integrate_world(old(world)@),
    {
        let ents = world.join_transform_velocity();
        let dt = world.delta.0;
        let ghost w0 = world@;
        let ghost s = w0.transforms.dom().intersect(w0.velocities.dom());
        proof {
            lemma_joined(w0.next_id as nat, s);
        }
        let mut j: usize = 0;
        while j < ents.len()
            invariant
                j <= ents.len(),
                dt == w0.delta,
                s == w0.transforms.dom().intersect(w0.velocities.dom()),
                ents@ == joined(w0.next_id as nat, s),
                forall|a: int, b: int| 0 <= a < b < ents@.len() ==> ents@[a].id < ents@[b].id,
                forall|a: int| 0 <= a < ents@.len() ==> s.contains(#[trigger] ents@[a].id),
                world@ == (WorldModel { transforms: world@.transforms, ..w0 }),
                world@.transforms.dom() == w0.transforms.dom(),
                forall|k: usize|
                    #[trigger] w0.transforms.contains_key(k) ==> world@.transforms[k] == (if in_prefix(
                        ents@,
                        j as int,
                        k,
                    ) {
                        integrated(w0.transforms[k], w0.velocities[k], dt as nat)
                    } else {
                        w0.transforms[k]
                    }),
            decreases ents.len() - j,
        {
            let e = ents[j];
            assert(s.contains(ents@[j as int].id));
            assert(!in_prefix(ents@, j as int, e.id)) by {
                if in_prefix(ents@, j as int, e.id) {
                    let p = choose|p: int| 0 <= p < j && #[trigger] ents@[p] == (Entity { id: e.id });
                    assert(ents@[p].id < ents@[j as int].id);
                }
            }
            let t = world.transforms.get(e.id);
            let v = world.velocities.get(e.id);
            if let (Some(t), Some(v)) = (t, v) {
                world.transforms.insert(e.id, integrate(t, v, dt));
            }
            assert forall|k: usize| #[trigger] w0.transforms.contains_key(k) implies
                in_prefix(ents@, j + 1, k) == (in_prefix(ents@, j as int, k) || k == e.id) by {
                if k == e.id {
                    assert(ents@[j as int] == (Entity { id: k }));
                }
                if in_prefix(ents@, j + 1, k) && k != e.id {
                    let p = choose|p: int| 0 <= p < j + 1 && #[trigger] ents@[p] == (Entity { id: k });
                    assert(p < j);
                }
            }
            assert(world@.transforms.dom() =~= w0.transforms.dom());
            j = j + 1;
        }
        assert forall|k: usize| #[trigger] w0.transforms.contains_key(k) implies
            in_prefix(ents@, j as int, k) == w0.velocities.contains_key(k) by {
            if w0.velocities.contains_key(k) {
                assert(s.contains(k));
                let p = choose|p: int| 0 <= p < ents@.len() && #[trigger] ents@[p].id == k;
                assert(ents@[p] == (Entity { id: k }));
            }
            if in_prefix(ents@, j as int, k) {
                let p = choose|p: int| 0 <= p < j && #[trigger] ents@[p] == (Entity { id: k });
                assert(s.contains(ents@[p].id));
            }
        }
        assert(world@.transforms =~= integrate_world(w0).transforms);
    }
}

} // verus!
