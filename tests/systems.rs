use mini_town::ecs::components::{Camera, Control, Entity, Point2, Render, Transform, Vector2, Velocity};
use mini_town::ecs::registered_world;
use mini_town::ecs::resources::InputPatch;
use mini_town::ecs::systems::{camera, camera_focus, camera_zoom, control, velocity, SystemError};
use mini_town::ecs::world::{EntityBuilder, World};

fn tr(x: i64, y: i64) -> Transform {
    Transform { pos: Point2 { x, y }, rot: 0, scale: 1 }
}

fn vel(x: i64, y: i64, angular: i64) -> Velocity {
    Velocity { spatial: Vector2 { x, y }, angular }
}

#[test]
fn registered_world_is_empty() {
    let w = registered_world();
    assert_eq!(w.next_id, 0);
    assert_eq!(w.transform(Entity { id: 0 }), None);
    assert_eq!(w.input.mouse_wheel, None);
    assert!(!w.input.up);
    assert_eq!(w.delta.0, 0);
}

#[test]
fn create_entity_gives_fresh_ids() {
    let mut w = World::new();
    let a = w.create_entity();
    let b = w.create_entity();
    assert_ne!(a, b);
    assert_eq!(w.next_id, 2);
    assert_eq!(w.transform(a), None);
}

#[test]
fn builder_commits_all_components() {
    let mut w = World::new();
    let e = w.build_entity(
        EntityBuilder::new()
            .with_transform(tr(1, 2))
            .with_velocity(vel(3, 4, 5))
            .with_render(Render { tex: 9 })
            .with_control(Control { move_speed: 7 })
            .with_camera(Camera::default()),
    );
    assert_eq!(w.transform(e), Some(tr(1, 2)));
    assert_eq!(w.velocity(e), Some(vel(3, 4, 5)));
    assert_eq!(w.render(e), Some(Render { tex: 9 }));
    assert_eq!(w.control(e), Some(Control { move_speed: 7 }));
    assert_eq!(w.camera(e), Some(Camera::default()));
    let bare = w.build_entity(EntityBuilder::new());
    assert_eq!(w.transform(bare), None);
    assert_eq!(w.camera(bare), None);
}

#[test]
fn join_yields_entities_with_both_components() {
    let mut w = World::new();
    let a = w.build_entity(EntityBuilder::new().with_transform(tr(0, 0)).with_velocity(vel(1, 0, 0)));
    let _b = w.build_entity(EntityBuilder::new().with_transform(tr(0, 0)));
    let c = w.build_entity(EntityBuilder::new().with_transform(tr(5, 5)).with_velocity(vel(0, 1, 0)));
    let first = w.join_transform_velocity();
    assert_eq!(first, vec![a, c]);
    let second = w.join_transform_velocity();
    assert_eq!(first, second);
}

#[test]
fn velocity_integration_is_identity_at_zero_dt() {
    let mut w = World::new();
    let a = w.build_entity(EntityBuilder::new().with_transform(tr(4, -2)).with_velocity(vel(30, 40, 7)));
    w.advance(0);
    velocity::System.run(&mut w);
    assert_eq!(w.transform(a), Some(tr(4, -2)));
}

#[test]
fn velocity_integration_moves_by_velocity_times_dt() {
    let mut w = World::new();
    let a = w.build_entity(
        EntityBuilder::new()
            .with_transform(Transform { pos: Point2 { x: 1, y: 2 }, rot: 10, scale: 3 })
            .with_velocity(vel(3, -4, 5)),
    );
    let still = w.build_entity(EntityBuilder::new().with_transform(tr(9, 9)));
    w.advance(2);
    velocity::System.run(&mut w);
    assert_eq!(w.transform(a), Some(Transform { pos: Point2 { x: 7, y: -6 }, rot: 20, scale: 3 }));
    assert_eq!(w.transform(still), Some(tr(9, 9)));
}

#[test]
fn velocity_integration_saturates() {
    let mut w = World::new();
    let a = w.build_entity(EntityBuilder::new().with_transform(tr(i64::MAX - 1, i64::MIN + 1)).with_velocity(vel(5, -5, 0)));
    w.advance(u64::MAX);
    velocity::System.run(&mut w);
    assert_eq!(w.transform(a).unwrap().pos, Point2 { x: i64::MAX, y: i64::MIN });
}

#[test]
fn control_overwrites_velocity() {
    let mut w = World::new();
    let a = w.build_entity(
        EntityBuilder::new().with_control(Control { move_speed: 100 }).with_velocity(vel(55, -12, 3)),
    );
    let mut p = InputPatch::none();
    p.right = Some(true);
    w.set_input(p);
    control::System.run(&mut w);
    assert_eq!(w.velocity(a), Some(vel(100, 0, 3)));
    control::System.run(&mut w);
    assert_eq!(w.velocity(a), Some(vel(100, 0, 3)));
}

#[test]
fn control_leaves_uncontrolled_velocity() {
    let mut w = World::new();
    let a = w.build_entity(EntityBuilder::new().with_velocity(vel(1, 2, 3)));
    let mut p = InputPatch::none();
    p.up = Some(true);
    p.left = Some(true);
    w.set_input(p);
    control::System.run(&mut w);
    assert_eq!(w.velocity(a), Some(vel(1, 2, 3)));
    let b = w.build_entity(EntityBuilder::new().with_velocity(vel(0, 0, 0)).with_control(Control { move_speed: 4 }));
    control::System.run(&mut w);
    assert_eq!(w.velocity(b), Some(vel(-4, 4, 0)));
}

#[test]
fn camera_follows_focus_exactly() {
    let mut w = World::new();
    let target = w.build_entity(EntityBuilder::new().with_transform(tr(5, 7)));
    let cam = w.build_entity(
        EntityBuilder::new()
            .with_transform(Transform { pos: Point2 { x: 0, y: 0 }, rot: 2, scale: 3 })
            .with_camera(Camera::new(target)),
    );
    assert_eq!(camera_focus::System.run(&mut w), Ok(()));
    assert_eq!(w.transform(cam), Some(Transform { pos: Point2 { x: 5, y: 7 }, rot: 2, scale: 3 }));
    assert_eq!(w.transform(target), Some(tr(5, 7)));
}

#[test]
fn camera_without_focus_is_passed_over() {
    let mut w = World::new();
    let cam = w.build_entity(EntityBuilder::new().with_transform(tr(1, 1)).with_camera(Camera::default()));
    assert_eq!(camera_focus::System.run(&mut w), Ok(()));
    assert_eq!(w.transform(cam), Some(tr(1, 1)));
    assert_eq!(camera::System.run(&mut w), Err(SystemError::MissingFocus { camera: cam }));
}

#[test]
fn camera_focus_without_transform_is_dangling() {
    let mut w = World::new();
    let target = w.build_entity(EntityBuilder::new());
    let cam = w.build_entity(EntityBuilder::new().with_transform(tr(1, 1)).with_camera(Camera::new(target)));
    assert_eq!(
        camera_focus::System.run(&mut w),
        Err(SystemError::DanglingFocus { camera: cam, focus: target })
    );
    assert_eq!(
        camera::System.run(&mut w),
        Err(SystemError::DanglingFocus { camera: cam, focus: target })
    );
}

#[test]
fn camera_without_own_transform_fails() {
    let mut w = World::new();
    let target = w.build_entity(EntityBuilder::new().with_transform(tr(3, 3)));
    let cam = w.build_entity(EntityBuilder::new().with_camera(Camera::new(target)));
    assert_eq!(
        camera_focus::System.run(&mut w),
        Err(SystemError::MissingTransform { entity: cam })
    );
}

#[test]
fn strict_camera_system_follows_focus() {
    let mut w = World::new();
    let target = w.build_entity(EntityBuilder::new().with_transform(tr(-8, 2)));
    let cam = w.build_entity(EntityBuilder::new().with_transform(tr(0, 0)).with_camera(Camera::new(target)));
    assert_eq!(camera::System.run(&mut w), Ok(()));
    assert_eq!(w.transform(cam), Some(tr(-8, 2)));
}

#[test]
fn zoom_system_applies_wheel_then_steps() {
    let mut w = World::new();
    let cam = w.build_entity(EntityBuilder::new().with_camera(Camera {
        zoom: 5,
        zoom_desired: 5,
        zoom_limits: (1, 100),
        zoom_speed: 2,
        focus: None,
    }));
    let mut p = InputPatch::none();
    p.mouse_wheel = Some(Some((0, -3)));
    w.set_input(p);
    w.advance(1);
    camera_zoom::System.run(&mut w);
    let c = w.camera(cam).unwrap();
    assert_eq!(c.zoom_desired, 2);
    assert_eq!(c.zoom, 3);
}

#[test]
fn zoom_system_clamps_wheel_to_limits() {
    let mut w = World::new();
    let cam = w.build_entity(EntityBuilder::new().with_camera(Camera::default()));
    let mut p = InputPatch::none();
    p.mouse_wheel = Some(Some((0, 50)));
    w.set_input(p);
    camera_zoom::System.run(&mut w);
    assert_eq!(w.camera(cam).unwrap().zoom_desired, 10);
    let mut q = InputPatch::none();
    q.mouse_wheel = Some(Some((0, -50)));
    w.set_input(q);
    camera_zoom::System.run(&mut w);
    assert_eq!(w.camera(cam).unwrap().zoom_desired, 1);
}
