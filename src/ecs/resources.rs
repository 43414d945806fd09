//! Per-tick singleton values shared by the systems.
use vstd::prelude::*;

verus! {

/// Elapsed time of the current tick, in the host's units of time.
#[derive(Clone, Copy, Debug, PartialEq, Eq, Structural)]
pub struct DeltaTime(pub u64);

/// Input gathered by the host between two ticks.
#[derive(Clone, Copy, Debug, PartialEq, Eq)]
pub struct Input {
    pub mouse_location: (i32, i32),
    pub mouse_click: Option<(i32, i32)>,
    /// A wheel movement seen during one tick only.
    pub mouse_wheel: Option<(i32, i32)>,
    pub up: bool,
    pub down: bool,
    pub left: bool,
    pub right: bool,
}

/// An axis from two opposing flags: `1` for the positive one alone, `-1`
/// for the negative one alone, `0` for both or neither.
pub open spec fn axis(pos: bool, neg: bool) -> int {
    (if pos { 1int } else { 0int }) + (if neg { -1int } else { 0int })
}

pub open spec fn default_input() -> Input {
    Input {
        mouse_location: (0, 0),
        mouse_click: None,
        mouse_wheel: None,
        up: false,
        down: false,
        left: false,
        right: false,
    }
}

impl Input {
    pub fn vertical_axis(&self) -> (r: i64)
        ensures
            r as int == axis(self.up, self.down),
    {
        let up: i64 = if self.up { 1 } else { 0 };
        let down: i64 = if self.down { -1 } else { 0 };
        up + down
    }

    pub fn horizontal_axis(&self) -> (r: i64)
        ensures
            r as int == axis(self.right, self.left),
    {
        let left: i64 = if self.left { -1 } else { 0 };
        let right: i64 = if self.right { 1 } else { 0 };
        left + right
    }
}

impl Default for Input {
    fn default() -> (r: Self)
        ensures
            r == default_input(),
    {
        Input {
            mouse_location: (0, 0),
            mouse_click: None,
            mouse_wheel: None,
            up: false,
            down: false,
            left: false,
            right: false,
        }
    }
}


/// A change to some fields of the input; `None` leaves a field as it is.
#[derive(Clone, Copy, Debug, PartialEq, Eq)]
pub struct InputPatch {
    pub mouse_location: Option<(i32, i32)>,
    pub mouse_click: Option<Option<(i32, i32)>>,
    pub mouse_wheel: Option<Option<(i32, i32)>>,
    pub up: Option<bool>,
    pub down: Option<bool>,
    pub left: Option<bool>,
    pub right: Option<bool>,
}

pub open spec fn or_keep<T>(o: Option<T>, v: T) -> T {
    match o {
        Some(x) => x,
        None => v,
    }
}

/// `i` with the fields that `p` sets replaced.
pub open spec fn patched(i: Input, p: InputPatch) -> Input {
    Input {
        mouse_location: or_keep(p.mouse_location, i.mouse_location),
        mouse_click: or_keep(p.mouse_click, i.mouse_click),
        mouse_wheel: or_keep(p.mouse_wheel, i.mouse_wheel),
        up: or_keep(p.up, i.up),
        down: or_keep(p.down, i.down),
        left: or_keep(p.left, i.left),
        right: or_keep(p.right, i.right),
    }
}

impl InputPatch {
    /// A patch that changes nothing.
    pub fn none() -> (p: InputPatch)
        ensures
            p.mouse_location is None && p.mouse_click is None && p.mouse_wheel is None,
            p.up is None && p.down is None && p.left is None && p.right is None,
    {
        InputPatch {
            mouse_location: None,
            mouse_click: None,
            mouse_wheel: None,
            up: None,
            down: None,
            left: None,
            right: None,
        }
    }
}

impl Input {
    /// Replaces the fields that `p` sets.
    pub fn apply(&mut self, p: InputPatch)
        ensures
            *final(self) == patched(*old(self), p),
    {
        if let Some(v) = p.mouse_location {
            self.mouse_location = v;
        }
        if let Some(v) = p.mouse_click {
            self.mouse_click = v;
        }
        if let Some(v) = p.mouse_wheel {
            self.mouse_wheel = v;
        }
        if let Some(v) = p.up {
            self.up = v;
        }
        if let Some(v) = p.down {
            self.down = v;
        }
        if let Some(v) = p.left {
            self.left = v;
        }
        if let Some(v) = p.right {
            self.right = v;
        }
    }
}

} // verus!
