use mini_town::ecs::components::{Camera, Control, Point2, Render, Transform, Vector2, Velocity};
use mini_town::ecs::dispatcher::{BuildError, DispatcherBuilder, SystemKind};
use mini_town::ecs::resources::InputPatch;
use mini_town::ecs::systems::SystemError;
use mini_town::ecs::world::{EntityBuilder, World};
use mini_town::mainstate::{game_dispatcher, init_game_world, MainState};

fn s(x: &str) -> String {
    x.to_string()
}

fn tr(x: i64, y: i64) -> Transform {
    Transform { pos: Point2 { x, y }, rot: 0, scale: 1 }
}

#[test]
fn build_without_dependencies_keeps_registration_order() {
    let d = DispatcherBuilder::new()
        .add(SystemKind::Velocity, s("velocity"), vec![])
        .add(SystemKind::Control, s("control"), vec![])
        .add(SystemKind::CameraFocus, s("camera_focus"), vec![])
        .add(SystemKind::CameraZoom, s("camera_zoom"), vec![])
        .build()
        .unwrap();
    assert_eq!(
        d.systems(),
        vec![SystemKind::Velocity, SystemKind::Control, SystemKind::CameraFocus, SystemKind::CameraZoom]
    );
}

#[test]
fn build_orders_after_dependencies() {
    let d = DispatcherBuilder::new()
        .add(SystemKind::CameraFocus, s("focus"), vec![s("move")])
        .add(SystemKind::Velocity, s("move"), vec![s("steer")])
        .add(SystemKind::Control, s("steer"), vec![])
        .build()
        .unwrap();
    assert_eq!(d.systems(), vec![SystemKind::Control, SystemKind::Velocity, SystemKind::CameraFocus]);
}

#[test]
fn build_reports_missing_dependency() {
    let r = DispatcherBuilder::new()
        .add(SystemKind::Velocity, s("velocity"), vec![])
        .add(SystemKind::Control, s("control"), vec![s("velocity"), s("nowhere")])
        .build();
    assert_eq!(
        r.err(),
        Some(BuildError::MissingDependency { system: 1, dependency: s("nowhere") })
    );
}

#[test]
fn build_reports_cycle() {
    let r = DispatcherBuilder::new()
        .add(SystemKind::CameraZoom, s("zoom"), vec![])
        .add(SystemKind::Velocity, s("a"), vec![s("b")])
        .add(SystemKind::Control, s("b"), vec![s("a")])
        .build();
    assert_eq!(r.err(), Some(BuildError::Cycle));
    let own = DispatcherBuilder::new().add(SystemKind::Velocity, s("a"), vec![s("a")]).build();
    assert_eq!(own.err(), Some(BuildError::Cycle));
}

#[test]
fn empty_dispatcher_runs_nothing() {
    let d = DispatcherBuilder::new().build().unwrap();
    assert!(d.systems().is_empty());
    let mut w = World::new();
    assert_eq!(d.dispatch(&mut w), Ok(()));
}

#[test]
fn game_dispatcher_order() {
    assert_eq!(
        game_dispatcher().systems(),
        vec![SystemKind::Control, SystemKind::Velocity, SystemKind::CameraFocus, SystemKind::CameraZoom]
    );
}

#[test]
fn dispatch_stops_at_first_failure() {
    let d = DispatcherBuilder::new()
        .add(SystemKind::CameraFocus, s("focus"), vec![])
        .add(SystemKind::Velocity, s("move"), vec![s("focus")])
        .build()
        .unwrap();
    let mut w = World::new();
    let ghost_target = w.build_entity(EntityBuilder::new());
    let cam = w.build_entity(EntityBuilder::new().with_transform(tr(0, 0)).with_camera(Camera::new(ghost_target)));
    let mover = w.build_entity(
        EntityBuilder::new()
            .with_transform(tr(0, 0))
            .with_velocity(Velocity { spatial: Vector2 { x: 1, y: 1 }, angular: 0 }),
    );
    w.advance(1);
    assert_eq!(d.dispatch(&mut w), Err(SystemError::DanglingFocus { camera: cam, focus: ghost_target }));
    assert_eq!(w.transform(mover), Some(tr(0, 0)));
}

#[test]
fn init_game_world_scene() {
    let (w, cam) = init_game_world(Render { tex: 4 });
    assert_eq!(cam.id, 2);
    assert_eq!(w.next_id, 3);
    let player = mini_town::ecs::components::Entity { id: 0 };
    assert_eq!(w.transform(player), Some(Transform { pos: Point2 { x: 3000, y: 0 }, rot: 1000, scale: 500 }));
    assert_eq!(w.control(player), Some(Control { move_speed: 100 }));
    assert_eq!(w.render(player), Some(Render { tex: 4 }));
    assert_eq!(
        w.camera(cam),
        Some(Camera { zoom: 6000, zoom_desired: 6000, zoom_limits: (1000, 10000), zoom_speed: 6, focus: Some(player) })
    );
    assert_eq!(w.render(cam), None);
}

#[test]
fn end_to_end_tick() {
    let mut w = World::new();
    let player = w.build_entity(
        EntityBuilder::new()
            .with_control(Control { move_speed: 10 })
            .with_velocity(Velocity { spatial: Vector2 { x: 0, y: 0 }, angular: 0 })
            .with_transform(tr(0, 0)),
    );
    let cam = w.build_entity(EntityBuilder::new().with_transform(tr(0, 0)).with_camera(Camera::new(player)));
    let mut st = MainState::with_world(w, cam);
    let mut p = InputPatch::none();
    p.up = Some(true);
    st.set_input(p);
    st.advance(1);
    assert_eq!(st.update(), Ok(()));
    assert_eq!(st.world.velocity(player).unwrap().spatial, Vector2 { x: 0, y: 10 });
    assert_eq!(st.world.transform(player).unwrap().pos, Point2 { x: 0, y: 10 });
    assert_eq!(st.world.transform(cam).unwrap().pos, Point2 { x: 0, y: 10 });
}

#[test]
fn wheel_is_seen_for_one_tick_only() {
    let mut st = MainState::new(Render { tex: 0 });
    let cam = st.cam;
    let mut p = InputPatch::none();
    p.mouse_wheel = Some(Some((0, 2000)));
    st.set_input(p);
    st.advance(0);
    assert_eq!(st.update(), Ok(()));
    assert_eq!(st.world.camera(cam).unwrap().zoom_desired, 8000);
    assert_eq!(st.world.input.mouse_wheel, None);
    assert_eq!(st.update(), Ok(()));
    assert_eq!(st.world.camera(cam).unwrap().zoom_desired, 8000);
}

#[test]
fn game_tick_moves_player_and_camera() {
    let mut st = MainState::new(Render { tex: 0 });
    let player = mini_town::ecs::components::Entity { id: 0 };
    let mut p = InputPatch::none();
    p.right = Some(true);
    st.set_input(p);
    st.advance(16);
    assert_eq!(st.update(), Ok(()));
    assert_eq!(st.world.transform(player).unwrap().pos, Point2 { x: 3000 + 1600, y: 0 });
    assert_eq!(st.world.transform(st.cam).unwrap().pos, Point2 { x: 4600, y: 0 });
}
