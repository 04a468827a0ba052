//! Laws of the simulation that relate several ticks: the paddle can be
//! driven into its clamp stop but never past it, and motion is exactly
//! linear in the number of ticks.

use vstd::prelude::*;
use crate::config::{PADDLE_MIN_X, PADDLE_MAX_X, PADDLE_SPEED};
use crate::geometry::abs_int;
use crate::store::Entity;
use crate::world::{InputState, moved_entity, paddle_target_x};

verus! {

/// The input with only the move-left signal held.
pub open spec fn left_input() -> InputState {
    InputState { move_left: true, move_right: false }
}

/// The paddle's x after `n` ticks of hard-left input.
pub open spec fn paddle_x_after_left(x: int, n: nat) -> int
    decreases n,
{
    if n == 0 {
        x
    } else {
        paddle_target_x(paddle_x_after_left(x, (n - 1) as nat), left_input())
    }
}

/// Driving the input hard left for `n` ticks from anywhere on the track
/// puts the paddle exactly at `x - n * PADDLE_SPEED`, floored at the
/// clamp stop `PADDLE_MIN_X`: never below it, and exactly on it as soon
/// as `n` steps cover the distance.
pub proof fn lemma_paddle_hard_left(x: int, n: nat)
    requires
        PADDLE_MIN_X <= x <= PADDLE_MAX_X,
    ensures
        paddle_x_after_left(x, n) == if x - n * PADDLE_SPEED >= PADDLE_MIN_X {
            x - n * PADDLE_SPEED
        } else {
            PADDLE_MIN_X as int
        },
        paddle_x_after_left(x, n) >= PADDLE_MIN_X,
        n * PADDLE_SPEED >= x - PADDLE_MIN_X ==> paddle_x_after_left(x, n) == PADDLE_MIN_X,
    decreases n,
{
    if n == 0 {
        assert(n * PADDLE_SPEED == 0) by (nonlinear_arith)
            requires
                n == 0,
        ;
    } else {
        let m = (n - 1) as nat;
        lemma_paddle_hard_left(x, m);
        assert(n * PADDLE_SPEED == m * PADDLE_SPEED + PADDLE_SPEED) by (nonlinear_arith)
            requires
                n == m + 1,
        ;
        assert(m * PADDLE_SPEED >= 0) by (nonlinear_arith)
            requires
                m >= 0,
                PADDLE_SPEED > 0,
        ;
    }
}

/// An entity after `n` motion steps.
pub open spec fn moved_n(e: Entity, n: nat) -> Entity
    decreases n,
{
    if n == 0 {
        e
    } else {
        moved_entity(moved_n(e, (n - 1) as nat))
    }
}

/// Motion is exactly linear and deterministic: after `n` ticks, a
/// velocity-bearing entity has advanced by exactly `n` times its velocity
/// on each axis — the fixed timestep never drifts, whatever the
/// wall-clock rate — and no other field has changed.
pub proof fn lemma_motion_linear(e: Entity, n: nat)
    requires
        e.vel is Some,
        abs_int(e.pos.x as int) + n * abs_int(e.vel.unwrap().x as int) <= i64::MAX,
        abs_int(e.pos.y as int) + n * abs_int(e.vel.unwrap().y as int) <= i64::MAX,
    ensures
        moved_n(e, n).pos.x == e.pos.x + n * e.vel.unwrap().x,
        moved_n(e, n).pos.y == e.pos.y + n * e.vel.unwrap().y,
        moved_n(e, n) == (Entity { pos: moved_n(e, n).pos, ..e }),
    decreases n,
{
    let v = e.vel.unwrap();
    if n == 0 {
        assert(n * v.x == 0 && n * v.y == 0) by (nonlinear_arith)
            requires
                n == 0,
        ;
    } else {
        let m = (n - 1) as nat;
        assert(m * abs_int(v.x as int) <= n * abs_int(v.x as int) && m * abs_int(v.y as int) <= n
            * abs_int(v.y as int)) by (nonlinear_arith)
            requires
                m <= n,
                abs_int(v.x as int) >= 0,
                abs_int(v.y as int) >= 0,
        ;
        lemma_motion_linear(e, m);
        let p = moved_n(e, m);
        assert(n * v.x == m * v.x + v.x && n * v.y == m * v.y + v.y) by (nonlinear_arith)
            requires
                n == m + 1,
        ;
        assert(-(abs_int(e.pos.x as int) + n * abs_int(v.x as int)) <= e.pos.x + n * v.x <= abs_int(
            e.pos.x as int,
        ) + n * abs_int(v.x as int)) by (nonlinear_arith)
            requires
                n >= 0,
                -abs_int(e.pos.x as int) <= e.pos.x <= abs_int(e.pos.x as int),
                -abs_int(v.x as int) <= v.x <= abs_int(v.x as int),
        ;
        assert(-(abs_int(e.pos.y as int) + n * abs_int(v.y as int)) <= e.pos.y + n * v.y <= abs_int(
            e.pos.y as int,
        ) + n * abs_int(v.y as int)) by (nonlinear_arith)
            requires
                n >= 0,
                -abs_int(e.pos.y as int) <= e.pos.y <= abs_int(e.pos.y as int),
                -abs_int(v.y as int) <= v.y <= abs_int(v.y as int),
        ;
        assert(i64::MIN <= e.pos.x + n * v.x <= i64::MAX);
        assert(i64::MIN <= e.pos.y + n * v.y <= i64::MAX);
        assert(moved_n(e, n) == moved_entity(p));
    }
}

} // verus!
