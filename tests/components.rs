use mini_town::ecs::components::{Camera, Entity};
use mini_town::ecs::resources::{Input, InputPatch};
use mini_town::ecs::storage::{ComponentStorage, DenseStorage, SparseStorage};

fn cam_at(zoom: i64, desired: i64) -> Camera {
    Camera { zoom, zoom_desired: desired, zoom_limits: (1, 10), zoom_speed: 6, focus: None }
}

#[test]
fn camera_defaults() {
    let c = Camera::default();
    assert_eq!(c.zoom, 6);
    assert_eq!(c.zoom_desired, 6);
    assert_eq!(c.zoom_limits, (1, 10));
    assert_eq!(c.zoom_speed, 6);
    assert_eq!(c.focus, None);
    let n = Camera::new(Entity { id: 4 });
    assert_eq!(n.focus, Some(Entity { id: 4 }));
    assert_eq!(n.zoom, 6);
}

#[test]
fn incr_zoom_adds_within_limits() {
    let mut c = cam_at(6, 6);
    c.incr_zoom(2);
    assert_eq!(c.zoom_desired, 8);
    c.incr_zoom(-3);
    assert_eq!(c.zoom_desired, 5);
}

#[test]
fn incr_zoom_clamps_to_upper_and_lower_limit() {
    let mut c = cam_at(6, 6);
    c.incr_zoom(100);
    assert_eq!(c.zoom_desired, 10);
    c.incr_zoom(-100);
    assert_eq!(c.zoom_desired, 1);
    c.incr_zoom(i64::MIN);
    assert_eq!(c.zoom_desired, 1);
    c.incr_zoom(i64::MAX);
    assert_eq!(c.zoom_desired, 10);
}

#[test]
fn zoom_desired_stays_clamped_over_wheel_sequence() {
    let mut c = cam_at(6, 6);
    for inc in [3i64, 9, -2, -40, 7, 1, 1, -5, 12] {
        c.incr_zoom(inc);
        c.update_zoom(1);
        assert!(c.zoom_desired >= 1 && c.zoom_desired <= 10);
        assert!(c.zoom >= 1 && c.zoom <= 10);
    }
}

#[test]
fn update_zoom_steps_towards_desired() {
    let mut up = Camera { zoom: 2, zoom_desired: 9, zoom_limits: (1, 100), zoom_speed: 3, focus: None };
    up.update_zoom(2);
    assert_eq!(up.zoom, 8);
    let mut down = Camera { zoom: 50, zoom_desired: 9, zoom_limits: (1, 100), zoom_speed: 3, focus: None };
    down.update_zoom(2);
    assert_eq!(down.zoom, 44);
}

#[test]
fn update_zoom_moves_up_when_equal_and_is_clamped() {
    let mut c = cam_at(6, 6);
    c.update_zoom(1);
    assert_eq!(c.zoom, 10);
    let mut low = cam_at(2, 1);
    low.update_zoom(1);
    assert_eq!(low.zoom, 1);
    let mut none = cam_at(6, 6);
    none.update_zoom(0);
    assert_eq!(none.zoom, 6);
}

#[test]
fn axes_from_flags() {
    let mut i = Input::default();
    assert_eq!(i.vertical_axis(), 0);
    assert_eq!(i.horizontal_axis(), 0);
    i.up = true;
    i.right = true;
    assert_eq!(i.vertical_axis(), 1);
    assert_eq!(i.horizontal_axis(), 1);
    i.down = true;
    i.left = true;
    assert_eq!(i.vertical_axis(), 0);
    assert_eq!(i.horizontal_axis(), 0);
    i.up = false;
    i.right = false;
    assert_eq!(i.vertical_axis(), -1);
    assert_eq!(i.horizontal_axis(), -1);
}

#[test]
fn input_patch_replaces_only_given_fields() {
    let mut i = Input::default();
    let mut p = InputPatch::none();
    p.up = Some(true);
    p.mouse_wheel = Some(Some((0, 2)));
    p.mouse_location = Some((10, 20));
    i.apply(p);
    assert!(i.up && !i.down && !i.left && !i.right);
    assert_eq!(i.mouse_wheel, Some((0, 2)));
    assert_eq!(i.mouse_location, (10, 20));
    assert_eq!(i.mouse_click, None);
    let mut q = InputPatch::none();
    q.mouse_click = Some(Some((1, 1)));
    i.apply(q);
    assert!(i.up);
    assert_eq!(i.mouse_click, Some((1, 1)));
}

#[test]
fn dense_storage_get_insert_remove() {
    let mut s: DenseStorage<u32> = DenseStorage::empty();
    assert_eq!(s.get(3), None);
    s.insert(3, 7);
    assert_eq!(s.get(3), Some(7));
    assert!(s.contains(3));
    assert!(!s.contains(0));
    assert_eq!(s.get(0), None);
    s.insert(3, 8);
    assert_eq!(s.get(3), Some(8));
    assert_eq!(s.remove(3), Some(8));
    assert_eq!(s.remove(3), None);
    assert!(!s.contains(3));
}

#[test]
fn sparse_storage_get_insert_remove() {
    let mut s: SparseStorage<u32> = SparseStorage::empty();
    assert_eq!(s.get(1000), None);
    s.insert(1000, 1);
    s.insert(2, 5);
    assert_eq!(s.get(1000), Some(1));
    assert_eq!(s.get(2), Some(5));
    assert!(s.contains(2));
    assert_eq!(s.remove(1000), Some(1));
    assert_eq!(s.get(1000), None);
}
