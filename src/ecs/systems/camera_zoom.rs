//! Applies mouse-wheel movement to the cameras' desired zoom and moves
//! their zoom towards it.
use vstd::prelude::*;
use crate::ecs::components::{incremented, zoom_updated, Camera, Entity};
use crate::ecs::resources::Input;
use crate::ecs::storage::ComponentStorage;
use crate::ecs::systems::in_prefix;
use crate::ecs::world::{join1, joined, lemma_joined, World, WorldModel};

verus! {

/// The camera after one tick: the wheel's vertical movement, if any, added
/// to the desired zoom, then the zoom moved for `dt` units of time.
pub open spec fn zoomed(c: Camera, input: Input, dt: nat) -> Camera {
    let c1 = match input.mouse_wheel {
        Some(w) => incremented(c, w.1 as int),
        None => c,
    };
    zoom_updated(c1, dt)
}

/// The world after every camera has been zoomed for one tick.
pub open spec fn zoom_world(w: WorldModel) -> WorldModel {
    WorldModel {
        cameras: Map::new(
            |k: usize| w.cameras.contains_key(k),
            |k: usize| zoomed(w.cameras[k], w.input, w.delta as nat),
        ),
        ..w
    }
}

/// Whatever the increment, the desired zoom ends within ordered limits.
pub proof fn lemma_incr_clamps(c: Camera, inc: int)
    requires
        c.zoom_limits.0 <= c.zoom_limits.1,
    ensures
        c.zoom_limits.0 <= incremented(c, inc).zoom_desired <= c.zoom_limits.1,
        incremented(c, inc).zoom_limits == c.zoom_limits,
{
}

/// Whatever wheel movement a tick brings, every well-formed camera stays
/// well formed: its desired zoom and its zoom stay within its limits. Over a
/// sequence of ticks this holds after each one.
pub proof fn lemma_zoom_clamp(w: WorldModel)
    requires
        forall|k: usize| #[trigger] w.cameras.contains_key(k) ==> w.cameras[k].wf(),
    ensures
        forall|k: usize| #[trigger] zoom_world(w).cameras.contains_key(k) ==> {
            let c = zoom_world(w).cameras[k];
            &&& c.wf()
            &&& c.zoom_limits == w.cameras[k].zoom_limits
            &&& c.zoom_limits.0 <= c.zoom_desired <= c.zoom_limits.1
        },
{
}

/// The camera after one tick under each input of `inputs` in turn.
pub open spec fn zoom_ticks(c: Camera, inputs: Seq<Input>, dt: nat) -> Camera
    decreases inputs.len(),
{
    if inputs.len() == 0 {
        c
    } else {
        zoomed(zoom_ticks(c, inputs.drop_last(), dt), inputs.last(), dt)
    }
}

/// Over any sequence of ticks, whatever their wheel movement, a well-formed
/// camera keeps its limits and its desired zoom within them.
pub proof fn lemma_zoom_ticks_clamp(c: Camera, inputs: Seq<Input>, dt: nat)
    requires
        c.wf(),
    ensures
        zoom_ticks(c, inputs, dt).wf(),
        zoom_ticks(c, inputs, dt).zoom_limits == c.zoom_limits,
        c.zoom_limits.0 <= zoom_ticks(c, inputs, dt).zoom_desired <= c.zoom_limits.1,
    decreases inputs.len(),
{
    if inputs.len() > 0 {
        lemma_zoom_ticks_clamp(c, inputs.drop_last(), dt);
    }
}

pub struct System;

impl System {
    /// For every camera: applies the wheel movement of this tick to the
    /// desired zoom, then steps the zoom for the elapsed time.
    pub fn run(&mut self, world: &mut World)
        requires
            old(world)@.wf(),
        ensures
            final(world)@ == zoom_world(old(world)@),
    {
        let ents = join1(world.next_id, &world.cameras);
        let dt = world.delta.0;
        let wheel = world.input.mouse_wheel;
        let ghost w0 = world@;
        let ghost s = w0.cameras.dom();
        proof {
            lemma_joined(w0.next_id as nat, s);
        }
        let mut j: usize = 0;
        while j < ents.len()
            invariant
                j <= ents.len(),
                dt == w0.delta,
                wheel == w0.input.mouse_wheel,
                s == w0.cameras.dom(),
                ents@ == joined(w0.next_id as nat, s),
                forall|a: int, b: int| 0 <= a < b < ents@.len() ==> ents@[a].id < ents@[b].id,
                forall|a: int| 0 <= a < ents@.len() ==> s.contains(#[trigger] ents@[a].id),
                world@ == (WorldModel { cameras: world@.cameras, ..w0 }),
                world@.cameras.dom() == w0.cameras.dom(),
                forall|k: usize|
                    #[trigger] w0.cameras.contains_key(k) ==> world@.cameras[k] == (if in_prefix(
                        ents@,
                        j as int,
                        k,
                    ) {
                        zoomed(w0.cameras[k], w0.input, dt as nat)
                    } else {
                        w0.cameras[k]
                    }),
            decreases ents.len() - j,
        {
            let e = ents[j];
            assert(s.contains(ents@[j as int].id));
            assert(!in_prefix(ents@, j as int, e.id)) by {
                if in_prefix(ents@, j as int, e.id) {
                    let p = choose|p: int| 0 <= p < j && #[trigger] ents@[p] == (Entity { id: e.id });
                    assert(ents@[p].id < ents@[j as int].id);
                }
            }
            if let Some(mut cam) = world.cameras.get(e.id) {
                if let Some(mouse_wheel) = wheel {
                    cam.incr_zoom(mouse_wheel.1 as i64);
                }
                cam.update_zoom(dt);
                world.cameras.insert(e.id, cam);
            }
            assert forall|k: usize| #[trigger] w0.cameras.contains_key(k) implies
                in_prefix(ents@, j + 1, k) == (in_prefix(ents@, j as int, k) || k == e.id) by {
                if k == e.id {
                    assert(ents@[j as int] == (Entity { id: k }));
                }
                if in_prefix(ents@, j + 1, k) && k != e.id {
                    let p = choose|p: int| 0 <= p < j + 1 && #[trigger] ents@[p] == (Entity { id: k });
                    assert(p < j);
                }
            }
            assert(world@.cameras.dom() =~= w0.cameras.dom());
            j = j + 1;
        }
        assert forall|k: usize| #[trigger] w0.cameras.contains_key(k) implies
            in_prefix(ents@, j as int, k) by {
            assert(s.contains(k));
            let p = choose|p: int| 0 <= p < ents@.len() && #[trigger] ents@[p].id == k;
            assert(ents@[p] == (Entity { id: k }));
        }
        assert(world@.cameras =~= zoom_world(w0).cameras);
    }
}

} // verus!
