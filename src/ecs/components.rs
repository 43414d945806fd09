//! Component data and the update rules of single components.
//!
//! All quantities are fixed-point integers in units the host chooses:
//! positions, angles, speeds and zoom levels are `i64`, elapsed time is a
//! `u64` count of time units. Arithmetic saturates at the bounds of `i64`.
use vstd::prelude::*;

verus! {

/// `x` brought into the range of `i64`.
pub open spec fn saturate(x: int) -> int {
    if x < i64::MIN {
        i64::MIN as int
    } else if x > i64::MAX {
        i64::MAX as int
    } else {
        x
    }
}

/// Narrows a wide intermediate result to `i64`, saturating at its bounds.
pub fn saturate_i128(x: i128) -> (r: i64)
    ensures
        r as int == saturate(x as int),
{
    if x < i64::MIN as i128 {
        i64::MIN
    } else if x > i64::MAX as i128 {
        i64::MAX
    } else {
        x as i64
    }
}

/// A product of an `i64` and a `u64` fits in an `i128`, and so does its
/// sum with a further `i64`.
pub proof fn lemma_scaled_fits(a: int, d: int)
    requires
        i64::MIN <= a <= i64::MAX,
        0 <= d <= u64::MAX,
    ensures
        -0x7fff_ffff_ffff_ffff_8000_0000_0000_0000 <= a * d <= 0x7fff_ffff_ffff_ffff_8000_0000_0000_0000,
{
    if a >= 0 {
        assert(0 <= a * d <= 0x8000_0000_0000_0000 * d) by (nonlinear_arith)
            requires
                0 <= a <= 0x8000_0000_0000_0000,
                0 <= d,
        ;
    } else {
        assert(-(0x8000_0000_0000_0000 * d) <= a * d <= 0) by (nonlinear_arith)
            requires
                -0x8000_0000_0000_0000 <= a < 0,
                0 <= d,
        ;
    }
    assert(0x8000_0000_0000_0000 * d <= 0x7fff_ffff_ffff_ffff_8000_0000_0000_0000) by (nonlinear_arith)
        requires
            0 <= d <= 0xffff_ffff_ffff_ffff,
    ;
}

/// An opaque identifier of an entity of a `World`.
#[derive(Clone, Copy, Debug, PartialEq, Eq, Hash, Structural)]
pub struct Entity {
    pub id: usize,
}

#[derive(Clone, Copy, Debug, PartialEq, Eq, Structural)]
pub struct Point2 {
    pub x: i64,
    pub y: i64,
}

#[derive(Clone, Copy, Debug, PartialEq, Eq, Structural)]
pub struct Vector2 {
    pub x: i64,
    pub y: i64,
}

#[derive(Clone, Copy, Debug, PartialEq, Eq, Structural)]
pub struct Transform {
    pub pos: Point2,
    pub rot: i64,
    pub scale: i64,
}

/// `zoom` - the current zoom of the camera, a height above the scene.
/// `zoom_desired` - the zoom level that `zoom` moves towards.
/// `zoom_limits` - inclusive bounds of the zoom levels.
/// `zoom_speed` - how far `zoom` moves per unit of time.
/// `focus` - the entity kept at the centre of the screen.
#[derive(Clone, Copy, Debug, PartialEq, Eq)]
pub struct Camera {
    pub zoom: i64,
    pub zoom_desired: i64,
    pub zoom_limits: (i64, i64),
    pub zoom_speed: i64,
    pub focus: Option<Entity>,
}

#[derive(Clone, Copy, Debug, PartialEq, Eq, Structural)]
pub struct Velocity {
    pub spatial: Vector2,
    pub angular: i64,
}

#[derive(Clone, Copy, Debug, PartialEq, Eq, Structural)]
pub struct Control {
    pub move_speed: i64,
}

/// A handle to a drawable asset held by the host's asset cache.
#[derive(Clone, Copy, Debug, PartialEq, Eq, Structural)]
pub struct Render {
    pub tex: u64,
}

/// `v` clamped into `[lo, hi]`, the upper bound applied first.
pub open spec fn clamp_to(v: int, lo: int, hi: int) -> int {
    let a = if v > hi { hi } else { v };
    if a < lo { lo } else { a }
}

pub open spec fn default_camera(focus: Option<Entity>) -> Camera {
    Camera { zoom: 6, zoom_desired: 6, zoom_limits: (1, 10), zoom_speed: 6, focus }
}

/// The camera after `inc` is added to its desired zoom.
pub open spec fn incremented(c: Camera, inc: int) -> Camera {
    Camera {
        zoom_desired: clamp_to(
            saturate(c.zoom_desired + inc),
            c.zoom_limits.0 as int,
            c.zoom_limits.1 as int,
        ) as i64,
        ..c
    }
}

/// Signed distance the zoom moves in `dt` units of time: downwards when the
/// desired zoom is below the current one, upwards otherwise.
pub open spec fn zoom_step(c: Camera, dt: nat) -> int {
    if c.zoom_desired < c.zoom {
        -(c.zoom_speed * dt)
    } else {
        c.zoom_speed * dt
    }
}

/// The camera after its zoom has moved for `dt` units of time; the zoom is
/// then held within the zoom limits.
pub open spec fn zoom_updated(c: Camera, dt: nat) -> Camera {
    Camera {
        zoom: clamp_to(
            saturate(c.zoom + zoom_step(c, dt)),
            c.zoom_limits.0 as int,
            c.zoom_limits.1 as int,
        ) as i64,
        ..c
    }
}

impl Camera {
    /// The zoom limits are ordered and hold both the zoom and the desired
    /// zoom.
    pub open spec fn wf(&self) -> bool {
        &&& self.zoom_limits.0 <= self.zoom_limits.1
        &&& self.zoom_limits.0 <= self.zoom_desired <= self.zoom_limits.1
        &&& self.zoom_limits.0 <= self.zoom <= self.zoom_limits.1
    }

    pub fn new(focus_ent: Entity) -> (c: Camera)
        ensures
            c == default_camera(Some(focus_ent)),
    {
        Camera { focus: Some(focus_ent), ..Camera::default() }
    }

    /// Modifies the desired zoom with the given increment, clamped to the
    /// zoom limits.
    pub fn incr_zoom(&mut self, inc: i64)
        ensures
            *final(self) == incremented(*old(self), inc as int),
    {
        let d = saturate_i128(self.zoom_desired as i128 + inc as i128);
        self.zoom_desired = d;
        if self.zoom_desired > self.zoom_limits.1 {
            self.zoom_desired = self.zoom_limits.1;
        }
        if self.zoom_desired < self.zoom_limits.0 {
            self.zoom_desired = self.zoom_limits.0;
        }
    }

    /// Moves the zoom towards the desired zoom by `zoom_speed * dt`, a plain
    /// step rather than an interpolation, and keeps it within the limits.
    pub fn update_zoom(&mut self, dt: u64)
        ensures
            *final(self) == zoom_updated(*old(self), dt as nat),
    {
        let speed = self.zoom_speed as i128;
        let d = dt as i128;
        proof {
            lemma_scaled_fits(speed as int, d as int);
        }
        let step: i128 = if self.zoom_desired < self.zoom { -(speed * d) } else { speed * d };
        let z = saturate_i128(self.zoom as i128 + step);
        self.zoom = z;
        if self.zoom > self.zoom_limits.1 {
            self.zoom = self.zoom_limits.1;
        }
        if self.zoom < self.zoom_limits.0 {
            self.zoom = self.zoom_limits.0;
        }
    }
}

impl Default for Camera {
    fn default() -> (c: Camera)
        ensures
            c == default_camera(None),
    {
        Camera { zoom: 6, zoom_desired: 6, zoom_limits: (1, 10), zoom_speed: 6, focus: None }
    }
}

} // verus!
