//! Axis-aligned box collision detection and velocity reflection.
//!
//! Boxes are given by the center position and the full size of each side.
//! [`detect`] reports whether two boxes overlap and, if so, which face of
//! the second box the first box (the probe) struck; [`bounce`] applies the
//! resulting reflection to the probe's velocity.

use vstd::prelude::*;

verus! {

/// A 2-D vector of fixed-point coordinates (see [`crate::config::SCALE`]).
#[derive(Clone, Copy, PartialEq, Eq, Structural, Debug)]
pub struct Vec2i {
    pub x: i64,
    pub y: i64,
}

/// The face of the *other* box that the probe box struck, or `Inside` when
/// the boxes interpenetrate too deeply for a face to be told apart.
#[derive(Clone, Copy, PartialEq, Eq, Structural, Debug)]
pub enum Side {
    Left,
    Right,
    Top,
    Bottom,
    Inside,
}

/// Magnitude of an unbounded integer.
pub open spec fn abs_int(v: int) -> int {
    if v < 0 { -v } else { v }
}

/// Twice the length of the overlap of the two projection intervals on one
/// axis, for boxes centered at `a_c` and `b_c` with full extents `a_ext`
/// and `b_ext`.  Positive exactly when the projections properly overlap.
pub open spec fn overlap2(a_c: int, a_ext: int, b_c: int, b_ext: int) -> int {
    a_ext + b_ext - 2 * abs_int(b_c - a_c)
}

/// What [`detect`] returns: `None` when either box has a degenerate
/// (non-positive) side or the boxes do not overlap on some axis.  Otherwise
/// the collision is put on the axis whose penetration is smaller relative
/// to that axis's combined extent (overlap ratios compared by
/// cross-multiplication, so no rounding occurs), and the face is named by
/// the sign of the positional delta on that axis; an exact ratio tie, or a
/// zero delta on the winning axis, counts as `Inside`.
pub open spec fn detect_spec(a_pos: Vec2i, a_size: Vec2i, b_pos: Vec2i, b_size: Vec2i) -> Option<
    Side,
> {
    if a_size.x <= 0 || a_size.y <= 0 || b_size.x <= 0 || b_size.y <= 0 {
        None
    } else {
        let ox2 = overlap2(a_pos.x as int, a_size.x as int, b_pos.x as int, b_size.x as int);
        let oy2 = overlap2(a_pos.y as int, a_size.y as int, b_pos.y as int, b_size.y as int);
        if ox2 <= 0 || oy2 <= 0 {
            None
        } else {
            let dx = b_pos.x - a_pos.x;
            let dy = b_pos.y - a_pos.y;
            let x_score = ox2 * (a_size.y + b_size.y);
            let y_score = oy2 * (a_size.x + b_size.x);
            if x_score < y_score {
                if dx > 0 {
                    Some(Side::Left)
                } else if dx < 0 {
                    Some(Side::Right)
                } else {
                    Some(Side::Inside)
                }
            } else if y_score < x_score {
                if dy > 0 {
                    Some(Side::Bottom)
                } else if dy < 0 {
                    Some(Side::Top)
                } else {
                    Some(Side::Inside)
                }
            } else {
                Some(Side::Inside)
            }
        }
    }
}

/// Collision detection between the probe box `a` and another box `b`, both
/// given by center position and full size.  Pure and total: any `i64`
/// coordinates are accepted (the arithmetic is widened internally), equal
/// inputs always give the equal result, and degenerate sizes report no
/// collision.
pub fn detect(a_pos: Vec2i, a_size: Vec2i, b_pos: Vec2i, b_size: Vec2i) -> (r: Option<Side>)
    ensures
        r == detect_spec(a_pos, a_size, b_pos, b_size),
{
    if a_size.x <= 0 || a_size.y <= 0 || b_size.x <= 0 || b_size.y <= 0 {
        return None;
    }
    let dx: i128 = b_pos.x as i128 - a_pos.x as i128;
    let dy: i128 = b_pos.y as i128 - a_pos.y as i128;
    let adx: i128 = if dx < 0 {
        -dx
    } else {
        dx
    };
    let ady: i128 = if dy < 0 {
        -dy
    } else {
        dy
    };
    let ext_x: i128 = a_size.x as i128 + b_size.x as i128;
    let ext_y: i128 = a_size.y as i128 + b_size.y as i128;
    let ox2: i128 = ext_x - 2 * adx;
    let oy2: i128 = ext_y - 2 * ady;
    if ox2 <= 0 || oy2 <= 0 {
        return None;
    }
    proof {
        assert(ox2 <= ext_x && oy2 <= ext_y);
        assert(ox2 * ext_y <= 0xfffffffffffffffe * 0xfffffffffffffffe && oy2 * ext_x
            <= 0xfffffffffffffffe * 0xfffffffffffffffe) by (nonlinear_arith)
            requires
                0 < ox2 <= ext_x <= 0xfffffffffffffffe,
                0 < oy2 <= ext_y <= 0xfffffffffffffffe,
        ;
    }
    let x_score: u128 = (ox2 as u128) * (ext_y as u128);
    let y_score: u128 = (oy2 as u128) * (ext_x as u128);
    proof {
        assert(x_score == ox2 * ext_y && y_score == oy2 * ext_x);
    }
    if x_score < y_score {
        if dx > 0 {
            Some(Side::Left)
        } else if dx < 0 {
            Some(Side::Right)
        } else {
            Some(Side::Inside)
        }
    } else if y_score < x_score {
        if dy > 0 {
            Some(Side::Bottom)
        } else if dy < 0 {
            Some(Side::Top)
        } else {
            Some(Side::Inside)
        }
    } else {
        Some(Side::Inside)
    }
}

/// Whether a collision on `side` reflects a probe moving with velocity
/// `vel` on the x axis: it does when the probe strikes the other box's left
/// face while moving right, or its right face while moving left.
pub open spec fn reflects_x(side: Side, vel: Vec2i) -> bool {
    (side is Left && vel.x > 0) || (side is Right && vel.x < 0)
}

/// Whether a collision on `side` reflects a probe moving with velocity
/// `vel` on the y axis: it does when the probe strikes the other box's top
/// face while moving down, or its bottom face while moving up.
pub open spec fn reflects_y(side: Side, vel: Vec2i) -> bool {
    (side is Top && vel.y < 0) || (side is Bottom && vel.y > 0)
}

/// The velocity after a collision on `side`: each axis is negated exactly
/// when its reflection condition holds, independently of the other axis;
/// `Inside` reflects neither.
pub open spec fn reflected(side: Side, vel: Vec2i) -> Vec2i {
    Vec2i {
        x: if reflects_x(side, vel) {
            (-vel.x) as i64
        } else {
            vel.x
        },
        y: if reflects_y(side, vel) {
            (-vel.y) as i64
        } else {
            vel.y
        },
    }
}

/// Applies the reflection for a collision on `side` to the velocity `vel`.
pub fn bounce(side: Side, vel: Vec2i) -> (r: Vec2i)
    requires
        vel.x != i64::MIN,
        vel.y != i64::MIN,
    ensures
        r == reflected(side, vel),
{
    let rx = match side {
        Side::Left => vel.x > 0,
        Side::Right => vel.x < 0,
        _ => false,
    };
    let ry = match side {
        Side::Top => vel.y < 0,
        Side::Bottom => vel.y > 0,
        _ => false,
    };
    Vec2i {
        x: if rx {
            -vel.x
        } else {
            vel.x
        },
        y: if ry {
            -vel.y
        } else {
            vel.y
        },
    }
}

/// Collision detection is deterministic: it is a pure function of the
/// four boxes, so any two results that [`detect`]'s contract admits for
/// the same inputs are the same classification.
pub proof fn lemma_detect_deterministic(
    a_pos: Vec2i,
    a_size: Vec2i,
    b_pos: Vec2i,
    b_size: Vec2i,
    r1: Option<Side>,
    r2: Option<Side>,
)
    requires
        r1 == detect_spec(a_pos, a_size, b_pos, b_size),
        r2 == detect_spec(a_pos, a_size, b_pos, b_size),
    ensures
        r1 == r2,
{
}

/// Boxes separated by at least the sum of their half-extents on either
/// axis never collide, whatever their sizes.
pub proof fn lemma_detect_no_overlap(a_pos: Vec2i, a_size: Vec2i, b_pos: Vec2i, b_size: Vec2i)
    requires
        2 * abs_int(a_pos.x - b_pos.x) >= a_size.x + b_size.x || 2 * abs_int(
            a_pos.y - b_pos.y,
        ) >= a_size.y + b_size.y,
    ensures
        detect_spec(a_pos, a_size, b_pos, b_size) is None,
{
}

/// Striking the other box's left face while moving right (any downward or
/// upward y component) flips the x velocity exactly and leaves the y
/// velocity unchanged.
pub proof fn lemma_reflect_left(vel: Vec2i)
    requires
        vel.x > 0,
    ensures
        reflected(Side::Left, vel).x == -(vel.x as int),
        reflected(Side::Left, vel).y == vel.y,
{
}

} // verus!
