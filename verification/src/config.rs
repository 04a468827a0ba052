//! Arena constants.
//!
//! All geometry is measured in fixed-point *sub-units*: [`SCALE`] sub-units
//! make one world unit.  The simulation advances in fixed ticks of 1/60 s,
//! and [`SCALE`] is chosen as 60 so that a velocity of `v` world units per
//! second moves an entity by exactly `v` sub-units per tick
//! (`v * (1/60) s * 60 sub/unit = v`).  Every tick is therefore exact
//! integer arithmetic, deterministic and independent of wall-clock timing.

use vstd::prelude::*;

verus! {

/// Fixed-point sub-units per world unit.
pub const SCALE: i64 = 60;

/// x coordinate of the left wall's center (world units: -450).
pub const LEFT_WALL: i64 = -450 * SCALE;
/// x coordinate of the right wall's center (world units: 450).
pub const RIGHT_WALL: i64 = 450 * SCALE;
/// y coordinate of the bottom wall's center (world units: -300).
pub const BOTTOM_WALL: i64 = -300 * SCALE;
/// y coordinate of the top wall's center (world units: 300).
pub const TOP_WALL: i64 = 300 * SCALE;
/// Thickness of each arena wall (world units: 10).
pub const WALL_THICKNESS: i64 = 10 * SCALE;

/// Full width of the paddle (world units: 120).
pub const PADDLE_WIDTH: i64 = 120 * SCALE;
/// Full height of the paddle (world units: 20).
pub const PADDLE_HEIGHT: i64 = 20 * SCALE;
/// Paddle speed in world units per second, i.e. sub-units per tick.
pub const PADDLE_SPEED: i64 = 500;
/// The paddle's fixed y coordinate (60 world units above the bottom wall).
pub const PADDLE_START_Y: i64 = BOTTOM_WALL + 60 * SCALE;
/// Smallest x the paddle's center may take: half of `WALL_THICKNESS`
/// plus `PADDLE_WIDTH` (65 world units) to the right of the left wall.
pub const PADDLE_MIN_X: i64 = LEFT_WALL + 65 * SCALE;
/// Largest x the paddle's center may take: the mirror of `PADDLE_MIN_X`.
pub const PADDLE_MAX_X: i64 = RIGHT_WALL - 65 * SCALE;

/// Full width and height of a ball (world units: 30).
pub const BALL_SIZE: i64 = 30 * SCALE;
/// Ball speed in world units per second, i.e. sub-units per tick.
pub const BALL_SPEED: i64 = 400;
/// Per-axis ball speed on a diagonal start: the nearest integer to
/// `BALL_SPEED` divided by the square root of two, so a diagonal ball
/// moves at (almost exactly) `BALL_SPEED` overall.
pub const BALL_SPEED_DIAG: i64 = 283;
/// x coordinate of a ball's starting position.
pub const BALL_START_X: i64 = 0;
/// y coordinate of a ball's starting position (world units: -50).
pub const BALL_START_Y: i64 = -50 * SCALE;

/// Full width of a brick (world units: 100).
pub const BRICK_WIDTH: i64 = 100 * SCALE;
/// Full height of a brick (world units: 30).
pub const BRICK_HEIGHT: i64 = 30 * SCALE;
/// Gap between neighbouring bricks (world units: 5).
pub const GAP_BETWEEN_BRICKS: i64 = 5 * SCALE;
/// Gap between the top brick row and the ceiling (world units: 20).
pub const GAP_BETWEEN_BRICKS_AND_CEILING: i64 = 20 * SCALE;
/// Gap between the outer brick columns and the side walls (world units: 20).
pub const GAP_BETWEEN_BRICKS_AND_SIDES: i64 = 20 * SCALE;
/// Gap between the paddle region and the lowest brick row (world units: 270).
pub const GAP_BETWEEN_PADDLE_AND_BRICKS: i64 = 270 * SCALE;
/// Health every brick starts with.
pub const BRICK_HEALTH: i8 = 1;

/// Number of brick rows that fit between paddle region and ceiling:
/// the floor of the vertical room left by the gaps, divided by a brick's
/// height plus one gap (see `lemma_grid_dimensions` in [`crate::world`]).
pub const BRICK_ROWS: i64 = 8;
/// Number of brick columns that fit between the side gaps: the floor of
/// the horizontal room left by the gaps, divided by a brick's width plus
/// one gap (see `lemma_grid_dimensions` in [`crate::world`]).
pub const BRICK_COLUMNS: i64 = 8;
/// x coordinate of the center of the bottom-left brick: side gap plus
/// half a brick width (50 world units) from the left wall.
pub const BRICK_OFFSET_X: i64 = LEFT_WALL + GAP_BETWEEN_BRICKS_AND_SIDES + 50 * SCALE;
/// y coordinate of the center of the bottom-left brick: paddle gap plus
/// half a brick height (15 world units) above the bottom wall.
pub const BRICK_OFFSET_Y: i64 = BOTTOM_WALL + GAP_BETWEEN_PADDLE_AND_BRICKS + 15 * SCALE;

/// Bound on the magnitude of any velocity component the store admits.
pub const VEL_LIMIT: i64 = 1_000_000;
/// A position whose coordinates lie within this bound can take one motion
/// step (at most [`VEL_LIMIT`] per axis) without leaving the `i64` range.
pub const POS_SAFE: i64 = i64::MAX - VEL_LIMIT;

} // verus!
