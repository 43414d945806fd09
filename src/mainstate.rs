//! The host-facing simulation state: the world of the game scene, the
//! camera used for drawing, and the dispatcher that runs each tick.
use vstd::prelude::*;
use crate::ecs::components::{incremented, zoom_updated, Camera, Control, Entity, Point2, Render, Transform, Vector2, Velocity};
use crate::ecs::dispatcher::{
    dangling, depends_on, first_ready, has_dangling, lemma_schedule_step, ready, run_all, schedule, BuildError, Dispatcher,
    DispatcherBuilder, Registration, SystemKind,
};
use crate::ecs::resources::{default_input, patched, InputPatch};
use crate::ecs::systems::camera_zoom::zoom_world;
use crate::ecs::systems::SystemError;
use crate::ecs::world::{EntityBuilder, World, WorldModel};

verus! {

/// The run order of the game's systems: input sets velocities, velocities
/// move transforms, then the camera follows its focus and zooms.
pub open spec fn game_order() -> Seq<SystemKind> {
    seq![SystemKind::Control, SystemKind::Velocity, SystemKind::CameraFocus, SystemKind::CameraZoom]
}

proof fn lemma_game_schedule(regs: Seq<Registration>)
    requires
        regs.len() == 4,
        regs[0].kind == SystemKind::Velocity,
        regs[0].name@ == "velocity"@,
        regs[0].deps@.len() == 1,
        regs[0].deps@[0]@ == "control"@,
        regs[1].kind == SystemKind::Control,
        regs[1].name@ == "control"@,
        regs[1].deps@.len() == 0,
        regs[2].kind == SystemKind::CameraFocus,
        regs[2].name@ == "camera_focus"@,
        regs[2].deps@.len() == 1,
        regs[2].deps@[0]@ == "velocity"@,
        regs[3].kind == SystemKind::CameraZoom,
        regs[3].name@ == "camera_zoom"@,
        regs[3].deps@.len() == 0,
    ensures
        schedule(regs, 4) == Some(seq![1usize, 0usize, 2usize, 3usize]),
        !has_dangling(regs),
{
    reveal_strlit("velocity");
    reveal_strlit("control");
    reveal_strlit("camera_focus");
    reveal_strlit("camera_zoom");
    assert(regs[0].name@.len() == 8 && regs[1].name@.len() == 7);
    assert(regs[2].name@.len() == 12 && regs[3].name@.len() == 11);
    assert(regs[0].deps@[0]@.len() == 7 && regs[2].deps@[0]@.len() == 8);
    assert(!has_dangling(regs)) by {
        assert forall|i: int, d: int| 0 <= i < 4 && 0 <= d < regs[i].deps@.len() implies !#[trigger] dangling(regs, i, d) by {
            if i == 0 {
                assert(regs[1].name@ == regs[0].deps@[0]@);
            } else if i == 2 {
                assert(regs[0].name@ == regs[2].deps@[0]@);
            }
        }
    }
    assert forall|j: int| 0 <= j < 4 && #[trigger] depends_on(regs, 0, j) implies j == 1 by {
        let d = choose|d: int| 0 <= d < regs[0].deps@.len() && #[trigger] regs[0].deps@[d]@ == regs[j].name@;
        assert(d == 0);
        assert(j == 1) by {
            if j == 0 {} else if j == 2 {} else if j == 3 {}
        }
    }
    assert(depends_on(regs, 0, 1)) by {
        assert(regs[0].deps@[0]@ == regs[1].name@);
    }
    assert forall|j: int| 0 <= j < 4 && #[trigger] depends_on(regs, 2, j) implies j == 0 by {
        let d = choose|d: int| 0 <= d < regs[2].deps@.len() && #[trigger] regs[2].deps@[d]@ == regs[j].name@;
        assert(d == 0);
        assert(j == 0) by {
            if j == 1 {} else if j == 2 {} else if j == 3 {}
        }
    }
    assert(depends_on(regs, 2, 0)) by {
        assert(regs[2].deps@[0]@ == regs[0].name@);
    }
    assert forall|j: int| 0 <= j < 4 implies !#[trigger] depends_on(regs, 1, j) && !depends_on(regs, 3, j) by {}

    let s0: Seq<usize> = seq![];
    let s1 = s0.push(1usize);
    let s2 = s1.push(0usize);
    let s3 = s2.push(2usize);
    assert(!ready(regs, s0, 0) && !s0.contains(1usize));
    assert(first_ready(regs, s0, 1));
    lemma_schedule_step(regs, 0, s0, 1);
    assert(s1.contains(1usize) && !s1.contains(0usize)) by {
        assert(s1[0] == 1usize);
    }
    assert(first_ready(regs, s1, 0));
    lemma_schedule_step(regs, 1, s1, 0);
    assert(s2.contains(1usize) && s2.contains(0usize) && !s2.contains(2usize)) by {
        assert(s2[0] == 1usize && s2[1] == 0usize);
    }
    assert(first_ready(regs, s2, 2));
    lemma_schedule_step(regs, 2, s2, 2);
    assert(s3.contains(1usize) && s3.contains(0usize) && s3.contains(2usize) && !s3.contains(3usize)) by {
        assert(s3[0] == 1usize && s3[1] == 0usize && s3[2] == 2usize);
    }
    assert(first_ready(regs, s3, 3));
    lemma_schedule_step(regs, 3, s3, 3);
    assert(s3.push(3usize) =~= seq![1usize, 0usize, 2usize, 3usize]);
}

/// The dispatcher of the game's systems, with the dependencies that make
/// input, movement and camera follow happen within one tick.
pub fn game_dispatcher() -> (d: Dispatcher)
    ensures
        d@ == game_order(),
{
    let b = DispatcherBuilder::new()
        .add(SystemKind::Velocity, "velocity".to_owned(), vec!["control".to_owned()])
        .add(SystemKind::Control, "control".to_owned(), vec![])
        .add(SystemKind::CameraFocus, "camera_focus".to_owned(), vec!["velocity".to_owned()])
        .add(SystemKind::CameraZoom, "camera_zoom".to_owned(), vec![]);
    proof {
        lemma_game_schedule(b.systems@);
    }
    let r = b.build();
    assert(r is Ok);
    let d = r.unwrap();
    assert(d@ =~= game_order());
    d
}


/// The camera of the game scene, in thousandths: zoom 6 within 1 to 10,
/// moving 6 per thousand units of time.
pub open spec fn game_camera(focus: Entity) -> Camera {
    Camera { zoom: 6000, zoom_desired: 6000, zoom_limits: (1000, 10000), zoom_speed: 6, focus: Some(focus) }
}

/// The game scene: a steerable player (entity 0), a fixed reference object
/// (entity 1), both drawn with `tex`, and a camera (entity 2) focused on the
/// player. Lengths and angles are in thousandths, speeds in thousandths per
/// unit of time.
pub open spec fn game_world(tex: Render) -> WorldModel {
    let still = Velocity { spatial: Vector2 { x: 0, y: 0 }, angular: 0 };
    WorldModel {
        next_id: 3,
        transforms: map![
            0usize => Transform { pos: Point2 { x: 3000, y: 0 }, rot: 1000, scale: 500 },
            1usize => Transform { pos: Point2 { x: 100000, y: 100000 }, rot: 0, scale: 500 },
            2usize => Transform { pos: Point2 { x: 0, y: 0 }, rot: 0, scale: 1000 },
        ],
        velocities: map![0usize => still, 1usize => still],
        renders: map![0usize => tex, 1usize => tex],
        cameras: map![2usize => game_camera(Entity { id: 0 })],
        controls: map![0usize => Control { move_speed: 100 }],
        input: default_input(),
        delta: 0,
    }
}

/// Builds the game scene; returns the world and the camera entity.
pub fn init_game_world(tex: Render) -> (r: (World, Entity))
    ensures
        r.0@ == game_world(tex),
        r.0@.wf(),
        r.1 == (Entity { id: 2 }),
{
    let mut world = crate::ecs::registered_world();
    let still = Velocity { spatial: Vector2 { x: 0, y: 0 }, angular: 0 };
    let player = world.build_entity(
        EntityBuilder::new()
            .with_transform(Transform { pos: Point2 { x: 3000, y: 0 }, rot: 1000, scale: 500 })
            .with_velocity(still)
            .with_render(tex)
            .with_control(Control { move_speed: 100 }),
    );
    let _reference = world.build_entity(
        EntityBuilder::new()
            .with_transform(Transform { pos: Point2 { x: 100000, y: 100000 }, rot: 0, scale: 500 })
            .with_velocity(still)
            .with_render(tex),
    );
    let cam = world.build_entity(
        EntityBuilder::new()
            .with_transform(Transform { pos: Point2 { x: 0, y: 0 }, rot: 0, scale: 1000 })
            .with_camera(
                Camera {
                    zoom: 6000,
                    zoom_desired: 6000,
                    zoom_limits: (1000, 10000),
                    zoom_speed: 6,
                    focus: Some(player),
                },
            ),
    );
    assert(world@.transforms =~= game_world(tex).transforms);
    assert(world@.velocities =~= game_world(tex).velocities);
    assert(world@.renders =~= map![0usize => tex, 1usize => tex]);
    assert(world@.controls =~= map![0usize => Control { move_speed: 100 }]);
    assert(world@.cameras =~= map![2usize => game_camera(Entity { id: 0 })]);
    (world, cam)
}

/// `w` with the wheel movement consumed.
pub open spec fn wheel_cleared(w: WorldModel) -> WorldModel {
    WorldModel { input: crate::ecs::resources::Input { mouse_wheel: None, ..w.input }, ..w }
}

/// A wheel movement is seen by the zoom step of the tick it arrives in; once
/// that tick has consumed it, the zoom step of the next tick sees none.
pub proof fn lemma_wheel_one_tick(w: WorldModel, m: (i32, i32), k: usize)
    requires
        w.input.mouse_wheel == Some(m),
        w.cameras.contains_key(k),
    ensures
        zoom_world(w).cameras[k] == zoom_updated(incremented(w.cameras[k], m.1 as int), w.delta as nat),
        wheel_cleared(w).input.mouse_wheel is None,
        zoom_world(wheel_cleared(w)).cameras[k] == zoom_updated(w.cameras[k], w.delta as nat),
{
}

/// The simulation as the host drives it: a world, the camera it draws
/// through, and the dispatcher that runs each tick.
pub struct MainState {
    pub world: World,
    pub cam: Entity,
    pub dispatcher: Dispatcher,
}

impl MainState {
    /// The game scene, with `tex` as the drawable of its objects.
    pub fn new(tex: Render) -> (s: MainState)
        ensures
            s.world@.wf(),
            s.world@ == game_world(tex),
            s.cam == (Entity { id: 2 }),
            s.dispatcher@ == game_order(),
    {
        let (world, cam) = init_game_world(tex);
        MainState { world, cam, dispatcher: game_dispatcher() }
    }

    /// A state over a world the host built, with the game's dispatcher.
    pub fn with_world(world: World, cam: Entity) -> (s: MainState)
        ensures
            s.world == world,
            s.cam == cam,
            s.dispatcher@ == game_order(),
    {
        MainState { world, cam, dispatcher: game_dispatcher() }
    }

    /// Sets the elapsed time of the coming tick.
    pub fn advance(&mut self, delta: u64)
        ensures
            final(self).world@ == (WorldModel { delta, ..old(self).world@ }),
            final(self).cam == old(self).cam,
            final(self).dispatcher@ == old(self).dispatcher@,
    {
        self.world.advance(delta);
    }

    /// Records an input event.
    pub fn set_input(&mut self, p: InputPatch)
        ensures
            final(self).world@ == (WorldModel { input: patched(old(self).world@.input, p), ..old(self).world@ }),
            final(self).cam == old(self).cam,
            final(self).dispatcher@ == old(self).dispatcher@,
    {
        self.world.set_input(p);
    }

    /// Runs one tick, then consumes the wheel movement so that the next tick
    /// sees none unless a new one arrives.
    pub fn update(&mut self) -> (r: Result<(), SystemError>)
        requires
            old(self).world@.wf(),
        ensures
            final(self).cam == old(self).cam,
            final(self).dispatcher@ == old(self).dispatcher@,
            final(self).world@.input.mouse_wheel is None,
            match r {
                Ok(()) => {
                    &&& run_all(old(self).dispatcher@, old(self).world@) is Ok
                    &&& final(self).world@ == wheel_cleared(run_all(old(self).dispatcher@, old(self).world@)->Ok_0)
                },
                Err(e) => run_all(old(self).dispatcher@, old(self).world@) == Err::<WorldModel, SystemError>(e),
            },
            r is Ok ==> final(self).world@.wf(),
    {
        let r = self.dispatcher.dispatch(&mut self.world);
        self.world.input.mouse_wheel = None;
        r
    }
}

} // verus!
