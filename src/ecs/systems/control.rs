//! Sets velocities from the directional input.
use vstd::prelude::*;
use crate::ecs::components::{saturate, saturate_i128, Control, Entity, Vector2, Velocity};
use crate::ecs::resources::{axis, Input};
use crate::ecs::storage::ComponentStorage;
use crate::ecs::systems::in_prefix;
use crate::ecs::world::{join2, joined, lemma_joined, World, WorldModel};

verus! {

/// The velocity that control `c` gives under `input`: each axis scaled by
/// the move speed. The spatial part is replaced, not added to.
pub open spec fn steered(v: Velocity, c: Control, input: Input) -> Velocity {
    Velocity {
        spatial: Vector2 {
            x: saturate(c.move_speed * axis(input.right, input.left)) as i64,
            y: saturate(c.move_speed * axis(input.up, input.down)) as i64,
        },
        angular: v.angular,
    }
}

/// The world after every entity with a control and a velocity has been
/// steered by the world's input.
pub open spec fn control_world(w: WorldModel) -> WorldModel {
    WorldModel {
        velocities: Map::new(
            |k: usize| w.velocities.contains_key(k),
            |k: usize|
                if w.controls.contains_key(k) {
                    steered(w.velocities[k], w.controls[k], w.input)
                } else {
                    w.velocities[k]
                },
        ),
        ..w
    }
}

/// The spatial velocity that the control system sets depends on the control
/// and the input alone, not on the velocity it replaces.
pub proof fn lemma_control_overwrites(w1: WorldModel, w2: WorldModel, k: usize)
    requires
        w1.controls == w2.controls,
        w1.input == w2.input,
        w1.controls.contains_key(k),
        w1.velocities.contains_key(k),
        w2.velocities.contains_key(k),
    ensures
        control_world(w1).velocities[k].spatial == control_world(w2).velocities[k].spatial,
        control_world(w1).velocities[k].spatial == (Vector2 {
            x: saturate(w1.controls[k].move_speed * axis(w1.input.right, w1.input.left)) as i64,
            y: saturate(w1.controls[k].move_speed * axis(w1.input.up, w1.input.down)) as i64,
        }),
{
}

/// `speed * a` for an axis value `a`, saturating.
fn scale_axis(speed: i64, a: i64) -> (r: i64)
    requires
        -1 <= a <= 1,
    ensures
        r as int == saturate(speed * a),
{
    if a == 0 {
        assert(speed * a == 0);
        0
    } else if a == 1 {
        assert(speed * a == speed);
        speed
    } else {
        assert(speed * a == -speed) by (nonlinear_arith)
            requires
                a == -1,
        ;
        saturate_i128(-(speed as i128))
    }
}

/// The velocity of one controlled entity under `input`.
pub fn steer(v: Velocity, c: Control, input: &Input) -> (r: Velocity)
    ensures
        r == steered(v, c, *input),
{
    let h = input.horizontal_axis();
    let u = input.vertical_axis();
    Velocity {
        spatial: Vector2 {
            x: scale_axis(c.move_speed, h),
            y: scale_axis(c.move_speed, u),
        },
        angular: v.angular,
    }
}

pub struct System;

impl System {
    /// For every entity with both a control and a velocity, sets the spatial
    /// velocity to the input axes scaled by the move speed.
    pub fn run(&mut self, world: &mut World)
        requires
            old(world)@.wf(),
        ensures
            final(world)@ == control_world(old(world)@),
    {
        let ents = join2(world.next_id, &world.controls, &world.velocities);
        let ghost w0 = world@;
        let ghost s = w0.controls.dom().intersect(w0.velocities.dom());
        proof {
            lemma_joined(w0.next_id as nat, s);
        }
        let mut j: usize = 0;
        while j < ents.len()
            invariant
                j <= ents.len(),
                s == w0.controls.dom().intersect(w0.velocities.dom()),
                ents@ == joined(w0.next_id as nat, s),
                forall|a: int, b: int| 0 <= a < b < ents@.len() ==> ents@[a].id < ents@[b].id,
                forall|a: int| 0 <= a < ents@.len() ==> s.contains(#[trigger] ents@[a].id),
                world@ == (WorldModel { velocities: world@.velocities, ..w0 }),
                world@.velocities.dom() == w0.velocities.dom(),
                forall|k: usize|
                    #[trigger] w0.velocities.contains_key(k) ==> world@.velocities[k] == (if in_prefix(
                        ents@,
                        j as int,
                        k,
                    ) {
                        steered(w0.velocities[k], w0.controls[k], w0.input)
                    } else {
                        w0.velocities[k]
                    }),
            decreases ents.len() - j,
        {
            let e = ents[j];
            assert(s.contains(ents@[j as int].id));
            assert(!in_prefix(ents@, j as int, e.id)) by {
                if in_prefix(ents@, j as int, e.id) {
                    let p = choose|p: int| 0 <= p < j && #[trigger] ents@[p] == (Entity { id: e.id });
                    assert(ents@[p].id < ents@[j as int].id);
                }
            }
            let c = world.controls.get(e.id);
            let v = world.velocities.get(e.id);
            if let (Some(c), Some(v)) = (c, v) {
                let nv = steer(v, c, &world.input);
                world.velocities.insert(e.id, nv);
            }
            assert forall|k: usize| #[trigger] w0.velocities.contains_key(k) implies
                in_prefix(ents@, j + 1, k) == (in_prefix(ents@, j as int, k) || k == e.id) by {
                if k == e.id {
                    assert(ents@[j as int] == (Entity { id: k }));
                }
                if in_prefix(ents@, j + 1, k) && k != e.id {
                    let p = choose|p: int| 0 <= p < j + 1 && #[trigger] ents@[p] == (Entity { id: k });
                    assert(p < j);
                }
            }
            assert(world@.velocities.dom() =~= w0.velocities.dom());
            j = j + 1;
        }
        assert forall|k: usize| #[trigger] w0.velocities.contains_key(k) implies
            in_prefix(ents@, j as int, k) == w0.controls.contains_key(k) by {
            if w0.controls.contains_key(k) {
                assert(s.contains(k));
                let p = choose|p: int| 0 <= p < ents@.len() && #[trigger] ents@[p].id == k;
                assert(ents@[p] == (Entity { id: k }));
            }
            if in_prefix(ents@, j as int, k) {
                let p = choose|p: int| 0 <= p < j && #[trigger] ents@[p] == (Entity { id: k });
                assert(s.contains(ents@[p].id));
            }
        }
        assert(world@.velocities =~= control_world(w0).velocities);
    }
}

} // verus!
