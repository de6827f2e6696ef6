use vstd::prelude::*;

verus! {

/// Sub-pixel steps per logical pixel in a pointer location (24.8 fixed point,
/// the precision the display protocol carries coordinates in).
pub const SUBPIXELS: i64 = 256;

/// A position in whole logical pixels.
#[derive(Clone, Copy, Debug, PartialEq, Eq, Structural)]
pub struct Point {
    pub x: i32,
    pub y: i32,
}

/// A pointer location, in 1/256 of a logical pixel on each axis.
#[derive(Clone, Copy, Debug, PartialEq, Eq, Structural)]
pub struct Fixed {
    pub x: i32,
    pub y: i32,
}

/// The integer nearest to `v / 256`, halves rounded away from zero.
pub open spec fn round_subpixels(v: int) -> int {
    if v >= 0 {
        (v + 128) / 256
    } else {
        -((128 - v) / 256)
    }
}

/// `v` limited to the range of `i32`.
pub open spec fn clamp_i32(v: int) -> int {
    if v < i32::MIN {
        i32::MIN as int
    } else if v > i32::MAX {
        i32::MAX as int
    } else {
        v
    }
}

/// One axis of a dragged window: where it started, moved by how far the
/// pointer travelled since the drag began, rounded to a whole pixel.
pub open spec fn dragged_axis(initial: i32, start: i32, now: i32) -> int {
    clamp_i32(round_subpixels(initial * SUBPIXELS + (now - start)))
}

pub open spec fn dragged_spec(initial: Point, start: Fixed, now: Fixed) -> Point {
    Point {
        x: dragged_axis(initial.x, start.x, now.x) as i32,
        y: dragged_axis(initial.y, start.y, now.y) as i32,
    }
}

fn dragged_coordinate(initial: i32, start: i32, now: i32) -> (r: i32)
    ensures
        r == dragged_axis(initial, start, now),
{
    let v: i64 = initial as i64 * SUBPIXELS + (now as i64 - start as i64);
    let rounded: i64 = if v >= 0 {
        (v + 128) / 256
    } else {
        -((128 - v) / 256)
    };
    if rounded < i32::MIN as i64 {
        i32::MIN
    } else if rounded > i32::MAX as i64 {
        i32::MAX
    } else {
        rounded as i32
    }
}

/// The new position of a window dragged from `initial`, for a pointer that
/// was at `start` when the drag began and is now at `now`.
pub fn dragged_location(initial: Point, start: Fixed, now: Fixed) -> (r: Point)
    ensures
        r == dragged_spec(initial, start, now),
{
    Point {
        x: dragged_coordinate(initial.x, start.x, now.x),
        y: dragged_coordinate(initial.y, start.y, now.y),
    }
}

} // verus!
