//! Whether two boxes overlap, and on which side the first meets the second.
//!
//! A box is given by its centre and its full width and height. To stay with
//! whole numbers, an edge is measured in half sub-units: the lower edge of a
//! box at `pos` with the size `size` lies at `2 * pos - size`.

use vstd::prelude::*;
use crate::components::Vec2;

verus! {

/// The side of the second box on which the first one meets it.
#[derive(Clone, Copy, Debug, PartialEq, Eq, Structural)]
pub enum Collision {
    /// The first box reaches in over the left edge of the second.
    Left,
    /// The first box reaches in over the right edge of the second.
    Right,
    /// The first box reaches in over the upper edge of the second.
    Top,
    /// The first box reaches in over the lower edge of the second.
    Bottom,
    /// The boxes overlap and no side stands out.
    Inside,
}

/// The lower edge along one axis, in half sub-units.
pub open spec fn low(pos: i64, size: i64) -> int {
    2 * pos - size
}

/// The upper edge along one axis, in half sub-units.
pub open spec fn high(pos: i64, size: i64) -> int {
    2 * pos + size
}

/// Whether the two spans have more than a point in common.
pub open spec fn meets(a_pos: i64, a_size: i64, b_pos: i64, b_size: i64) -> bool {
    low(a_pos, a_size) < high(b_pos, b_size) && high(a_pos, a_size) > low(b_pos, b_size)
}

/// Whether the two boxes overlap.
pub open spec fn overlaps(a_pos: Vec2, a_size: Vec2, b_pos: Vec2, b_size: Vec2) -> bool {
    meets(a_pos.x, a_size.x, b_pos.x, b_size.x) && meets(a_pos.y, a_size.y, b_pos.y, b_size.y)
}

/// Whether span `a` starts below span `b` and ends within it.
pub open spec fn from_below(a_pos: i64, a_size: i64, b_pos: i64, b_size: i64) -> bool {
    low(a_pos, a_size) < low(b_pos, b_size) && low(b_pos, b_size) < high(a_pos, a_size) < high(
        b_pos,
        b_size,
    )
}

/// Whether span `a` starts within span `b` and ends above it.
pub open spec fn from_above(a_pos: i64, a_size: i64, b_pos: i64, b_size: i64) -> bool {
    low(b_pos, b_size) < low(a_pos, a_size) < high(b_pos, b_size) && high(b_pos, b_size) < high(
        a_pos,
        a_size,
    )
}

/// Whether span `a` crosses exactly one end of span `b`.
pub open spec fn directed(a_pos: i64, a_size: i64, b_pos: i64, b_size: i64) -> bool {
    from_below(a_pos, a_size, b_pos, b_size) || from_above(a_pos, a_size, b_pos, b_size)
}

/// How far span `a` reaches into span `b` over the end that it crosses, in
/// half sub-units. It has a meaning where `directed` holds.
pub open spec fn depth(a_pos: i64, a_size: i64, b_pos: i64, b_size: i64) -> int {
    if from_below(a_pos, a_size, b_pos, b_size) {
        high(a_pos, a_size) - low(b_pos, b_size)
    } else {
        high(b_pos, b_size) - low(a_pos, a_size)
    }
}

/// The contact of box `a` with box `b`.
///
/// Boxes that do not overlap have none. Of boxes that overlap, an axis counts
/// if `a` crosses exactly one edge of `b` along it. If one axis counts, it
/// gives the side; if both count, the one along which `a` reaches in less
/// deep gives it. Where no axis counts, or both reach in equally deep, the
/// contact is `Inside`.
pub open spec fn collision_of(a_pos: Vec2, a_size: Vec2, b_pos: Vec2, b_size: Vec2) -> Option<
    Collision,
> {
    let along_x = directed(a_pos.x, a_size.x, b_pos.x, b_size.x);
    let along_y = directed(a_pos.y, a_size.y, b_pos.y, b_size.y);
    let depth_x = depth(a_pos.x, a_size.x, b_pos.x, b_size.x);
    let depth_y = depth(a_pos.y, a_size.y, b_pos.y, b_size.y);
    if !overlaps(a_pos, a_size, b_pos, b_size) {
        None
    } else if along_x && (!along_y || depth_x < depth_y) {
        if from_below(a_pos.x, a_size.x, b_pos.x, b_size.x) {
            Some(Collision::Left)
        } else {
            Some(Collision::Right)
        }
    } else if along_y && (!along_x || depth_y < depth_x) {
        if from_below(a_pos.y, a_size.y, b_pos.y, b_size.y) {
            Some(Collision::Bottom)
        } else {
            Some(Collision::Top)
        }
    } else {
        Some(Collision::Inside)
    }
}

/// Finds the contact of the box at `a_pos` of the size `a_size` with the box
/// at `b_pos` of the size `b_size`.
pub fn collide(a_pos: Vec2, a_size: Vec2, b_pos: Vec2, b_size: Vec2) -> (hit: Option<Collision>)
    ensures
        hit == collision_of(a_pos, a_size, b_pos, b_size),
        hit is Some <==> overlaps(a_pos, a_size, b_pos, b_size),
{
    let a_min_x: i128 = 2 * (a_pos.x as i128) - a_size.x as i128;
    let a_max_x: i128 = 2 * (a_pos.x as i128) + a_size.x as i128;
    let a_min_y: i128 = 2 * (a_pos.y as i128) - a_size.y as i128;
    let a_max_y: i128 = 2 * (a_pos.y as i128) + a_size.y as i128;
    let b_min_x: i128 = 2 * (b_pos.x as i128) - b_size.x as i128;
    let b_max_x: i128 = 2 * (b_pos.x as i128) + b_size.x as i128;
    let b_min_y: i128 = 2 * (b_pos.y as i128) - b_size.y as i128;
    let b_max_y: i128 = 2 * (b_pos.y as i128) + b_size.y as i128;

    if !(a_min_x < b_max_x && a_max_x > b_min_x && a_min_y < b_max_y && a_max_y > b_min_y) {
        return None;
    }
    let left = a_min_x < b_min_x && a_max_x > b_min_x && a_max_x < b_max_x;
    let right = a_min_x > b_min_x && a_min_x < b_max_x && a_max_x > b_max_x;
    let bottom = a_min_y < b_min_y && a_max_y > b_min_y && a_max_y < b_max_y;
    let top = a_min_y > b_min_y && a_min_y < b_max_y && a_max_y > b_max_y;
    let depth_x: i128 = if left {
        a_max_x - b_min_x
    } else {
        b_max_x - a_min_x
    };
    let depth_y: i128 = if bottom {
        a_max_y - b_min_y
    } else {
        b_max_y - a_min_y
    };
    let along_x = left || right;
    let along_y = bottom || top;
    if along_x && (!along_y || depth_x < depth_y) {
        if left {
            Some(Collision::Left)
        } else {
            Some(Collision::Right)
        }
    } else if along_y && (!along_x || depth_y < depth_x) {
        if bottom {
            Some(Collision::Bottom)
        } else {
            Some(Collision::Top)
        }
    } else {
        Some(Collision::Inside)
    }
}

} // verus!
