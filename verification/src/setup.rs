//! Building the initial world: paddle, ball, the four arena walls and the
//! brick grid, with the score at zero.
//!
//! The handles are fixed by construction: 0 the paddle, 1 the ball, 2–5
//! the left, right, bottom and top walls, and from 6 on the bricks in
//! row-major order from the bottom-left corner of the grid.

use vstd::prelude::*;
use crate::config::{
    BALL_SIZE, BALL_SPEED, BALL_SPEED_DIAG, BALL_START_X, BALL_START_Y, BOTTOM_WALL, BRICK_COLUMNS,
    BRICK_HEALTH, BRICK_HEIGHT, BRICK_OFFSET_X, BRICK_OFFSET_Y, BRICK_ROWS, BRICK_WIDTH,
    GAP_BETWEEN_BRICKS, GAP_BETWEEN_BRICKS_AND_CEILING, GAP_BETWEEN_BRICKS_AND_SIDES,
    GAP_BETWEEN_PADDLE_AND_BRICKS, LEFT_WALL, PADDLE_HEIGHT, PADDLE_START_Y, PADDLE_WIDTH,
    RIGHT_WALL, TOP_WALL, WALL_THICKNESS,
};
use crate::geometry::Vec2i;
use crate::store::{Entity, Kind, Store};
use crate::world::{World, motion_ok, is_live_paddle, paddle_placed};

verus! {

/// The paddle as it is created: centered on the track, no velocity.
pub open spec fn paddle_entity() -> Entity {
    Entity {
        kind: Kind::Paddle,
        pos: Vec2i { x: 0, y: PADDLE_START_Y },
        size: Vec2i { x: PADDLE_WIDTH, y: PADDLE_HEIGHT },
        vel: None,
        health: 0,
        alive: true,
    }
}

/// The starting velocity a direction draw picks: one of the eight compass
/// directions, at (very nearly) `BALL_SPEED` overall speed.
pub open spec fn dir_vel(dir: u64) -> Vec2i {
    let d = dir % 8;
    if d == 0 {
        Vec2i { x: BALL_SPEED, y: 0 }
    } else if d == 1 {
        Vec2i { x: BALL_SPEED_DIAG, y: BALL_SPEED_DIAG }
    } else if d == 2 {
        Vec2i { x: 0, y: BALL_SPEED }
    } else if d == 3 {
        Vec2i { x: (-BALL_SPEED_DIAG) as i64, y: BALL_SPEED_DIAG }
    } else if d == 4 {
        Vec2i { x: (-BALL_SPEED) as i64, y: 0 }
    } else if d == 5 {
        Vec2i { x: (-BALL_SPEED_DIAG) as i64, y: (-BALL_SPEED_DIAG) as i64 }
    } else if d == 6 {
        Vec2i { x: 0, y: (-BALL_SPEED) as i64 }
    } else {
        Vec2i { x: BALL_SPEED_DIAG, y: (-BALL_SPEED_DIAG) as i64 }
    }
}

/// The ball as it is created: at the starting position, moving in the
/// direction the draw `dir` picked.
pub open spec fn ball_entity(dir: u64) -> Entity {
    Entity {
        kind: Kind::Ball,
        pos: Vec2i { x: BALL_START_X, y: BALL_START_Y },
        size: Vec2i { x: BALL_SIZE, y: BALL_SIZE },
        vel: Some(dir_vel(dir)),
        health: 0,
        alive: true,
    }
}

/// Wall number `w` (0 left, 1 right, 2 bottom, 3 top): the verticals span
/// the arena's height plus the corner overlap, the horizontals its width.
pub open spec fn wall_entity(w: int) -> Entity {
    let vertical_size = Vec2i {
        x: WALL_THICKNESS,
        y: (TOP_WALL - BOTTOM_WALL + WALL_THICKNESS) as i64,
    };
    let horizontal_size = Vec2i {
        x: (RIGHT_WALL - LEFT_WALL + WALL_THICKNESS) as i64,
        y: WALL_THICKNESS,
    };
    let pos = if w == 0 {
        Vec2i { x: LEFT_WALL, y: 0 }
    } else if w == 1 {
        Vec2i { x: RIGHT_WALL, y: 0 }
    } else if w == 2 {
        Vec2i { x: 0, y: BOTTOM_WALL }
    } else {
        Vec2i { x: 0, y: TOP_WALL }
    };
    Entity {
        kind: Kind::Wall,
        pos,
        size: if w == 0 || w == 1 {
            vertical_size
        } else {
            horizontal_size
        },
        vel: None,
        health: 0,
        alive: true,
    }
}

/// The brick in row `r` (from the bottom) and column `c` (from the
/// left): brick-plus-gap strides from the grid's bottom-left corner.
pub open spec fn brick_entity(r: int, c: int) -> Entity {
    Entity {
        kind: Kind::Brick,
        pos: Vec2i {
            x: (BRICK_OFFSET_X + c * (BRICK_WIDTH + GAP_BETWEEN_BRICKS)) as i64,
            y: (BRICK_OFFSET_Y + r * (BRICK_HEIGHT + GAP_BETWEEN_BRICKS)) as i64,
        },
        size: Vec2i { x: BRICK_WIDTH, y: BRICK_HEIGHT },
        vel: None,
        health: BRICK_HEALTH,
        alive: true,
    }
}

/// What [`World::new`] builds from a direction draw `dir`: score zero and
/// the full entity roster under its fixed handles.
pub open spec fn initial_world(w: World, dir: u64) -> bool {
    let es = w.store.entities@;
    &&& w.score == 0
    &&& es.len() == 6 + BRICK_ROWS * BRICK_COLUMNS
    &&& es[0] == paddle_entity()
    &&& es[1] == ball_entity(dir)
    &&& es[2] == wall_entity(0)
    &&& es[3] == wall_entity(1)
    &&& es[4] == wall_entity(2)
    &&& es[5] == wall_entity(3)
    &&& forall|r: int, c: int|
        0 <= r < BRICK_ROWS && 0 <= c < BRICK_COLUMNS ==> es[6 + r * BRICK_COLUMNS + c]
            == #[trigger] brick_entity(r, c)
}

/// The grid constants really are the floor divisions they stand for: as
/// many rows and columns as fit in the room the gaps leave.
pub proof fn lemma_grid_dimensions()
    ensures
        BRICK_ROWS == (TOP_WALL - BOTTOM_WALL - GAP_BETWEEN_BRICKS_AND_CEILING
            - GAP_BETWEEN_PADDLE_AND_BRICKS) / (BRICK_HEIGHT + GAP_BETWEEN_BRICKS),
        BRICK_COLUMNS == (RIGHT_WALL - LEFT_WALL - 2 * GAP_BETWEEN_BRICKS_AND_SIDES) / (BRICK_WIDTH
            + GAP_BETWEEN_BRICKS),
{
}

impl World {
    /// Builds the starting world: the paddle on its track, one ball moving
    /// in the direction picked by `dir`, the four walls, the full brick
    /// grid at `BRICK_HEALTH` each, and the score at zero.
    pub fn new(dir: u64) -> (w: World)
        ensures
            w.wf(),
            motion_ok(w.store.entities@),
            initial_world(w, dir),
    {
        let mut store = Store::new();
        store.create(
            Entity {
                kind: Kind::Paddle,
                pos: Vec2i { x: 0, y: PADDLE_START_Y },
                size: Vec2i { x: PADDLE_WIDTH, y: PADDLE_HEIGHT },
                vel: None,
                health: 0,
                alive: true,
            },
        );
        let d = dir % 8;
        let vel: Vec2i = if d == 0 {
            Vec2i { x: BALL_SPEED, y: 0 }
        } else if d == 1 {
            Vec2i { x: BALL_SPEED_DIAG, y: BALL_SPEED_DIAG }
        } else if d == 2 {
            Vec2i { x: 0, y: BALL_SPEED }
        } else if d == 3 {
            Vec2i { x: -BALL_SPEED_DIAG, y: BALL_SPEED_DIAG }
        } else if d == 4 {
            Vec2i { x: -BALL_SPEED, y: 0 }
        } else if d == 5 {
            Vec2i { x: -BALL_SPEED_DIAG, y: -BALL_SPEED_DIAG }
        } else if d == 6 {
            Vec2i { x: 0, y: -BALL_SPEED }
        } else {
            Vec2i { x: BALL_SPEED_DIAG, y: -BALL_SPEED_DIAG }
        };
        proof {
            assert(vel == dir_vel(dir));
        }
        store.create(
            Entity {
                kind: Kind::Ball,
                pos: Vec2i { x: BALL_START_X, y: BALL_START_Y },
                size: Vec2i { x: BALL_SIZE, y: BALL_SIZE },
                vel: Some(vel),
                health: 0,
                alive: true,
            },
        );
        let vertical_size = Vec2i { x: WALL_THICKNESS, y: TOP_WALL - BOTTOM_WALL + WALL_THICKNESS };
        let horizontal_size = Vec2i {
            x: RIGHT_WALL - LEFT_WALL + WALL_THICKNESS,
            y: WALL_THICKNESS,
        };
        store.create(
            Entity {
                kind: Kind::Wall,
                pos: Vec2i { x: LEFT_WALL, y: 0 },
                size: vertical_size,
                vel: None,
                health: 0,
                alive: true,
            },
        );
        store.create(
            Entity {
                kind: Kind::Wall,
                pos: Vec2i { x: RIGHT_WALL, y: 0 },
                size: vertical_size,
                vel: None,
                health: 0,
                alive: true,
            },
        );
        store.create(
            Entity {
                kind: Kind::Wall,
                pos: Vec2i { x: 0, y: BOTTOM_WALL },
                size: horizontal_size,
                vel: None,
                health: 0,
                alive: true,
            },
        );
        store.create(
            Entity {
                kind: Kind::Wall,
                pos: Vec2i { x: 0, y: TOP_WALL },
                size: horizontal_size,
                vel: None,
                health: 0,
                alive: true,
            },
        );
        let mut row: i64 = 0;
        while row < BRICK_ROWS
            invariant
                0 <= row <= BRICK_ROWS,
                store.wf(),
                store.entities@.len() == 6 + row * BRICK_COLUMNS,
                store.entities@[0] == paddle_entity(),
                store.entities@[1] == ball_entity(dir),
                store.entities@[2] == wall_entity(0),
                store.entities@[3] == wall_entity(1),
                store.entities@[4] == wall_entity(2),
                store.entities@[5] == wall_entity(3),
                forall|r: int, c: int|
                    0 <= r < row && 0 <= c < BRICK_COLUMNS ==> store.entities@[6 + r
                        * BRICK_COLUMNS + c] == #[trigger] brick_entity(r, c),
            decreases BRICK_ROWS - row,
        {
            let mut col: i64 = 0;
            while col < BRICK_COLUMNS
                invariant
                    0 <= row < BRICK_ROWS,
                    0 <= col <= BRICK_COLUMNS,
                    store.wf(),
                    store.entities@.len() == 6 + row * BRICK_COLUMNS + col,
                    store.entities@[0] == paddle_entity(),
                    store.entities@[1] == ball_entity(dir),
                    store.entities@[2] == wall_entity(0),
                    store.entities@[3] == wall_entity(1),
                    store.entities@[4] == wall_entity(2),
                    store.entities@[5] == wall_entity(3),
                    forall|r: int, c: int|
                        0 <= r < row && 0 <= c < BRICK_COLUMNS ==> store.entities@[6 + r
                            * BRICK_COLUMNS + c] == #[trigger] brick_entity(r, c),
                    forall|c: int|
                        0 <= c < col ==> store.entities@[6 + row * BRICK_COLUMNS + c]
                            == #[trigger] brick_entity(row as int, c),
                decreases BRICK_COLUMNS - col,
            {
                proof {
                    assert(0 <= col * (BRICK_WIDTH + GAP_BETWEEN_BRICKS) <= 50400)
                        by (nonlinear_arith)
                        requires
                            0 <= col < 8,
                            BRICK_WIDTH + GAP_BETWEEN_BRICKS == 6300,
                    ;
                    assert(0 <= row * (BRICK_HEIGHT + GAP_BETWEEN_BRICKS) <= 16800)
                        by (nonlinear_arith)
                        requires
                            0 <= row < 8,
                            BRICK_HEIGHT + GAP_BETWEEN_BRICKS == 2100,
                    ;
                }
                let e = Entity {
                    kind: Kind::Brick,
                    pos: Vec2i {
                        x: BRICK_OFFSET_X + col * (BRICK_WIDTH + GAP_BETWEEN_BRICKS),
                        y: BRICK_OFFSET_Y + row * (BRICK_HEIGHT + GAP_BETWEEN_BRICKS),
                    },
                    size: Vec2i { x: BRICK_WIDTH, y: BRICK_HEIGHT },
                    vel: None,
                    health: BRICK_HEALTH,
                    alive: true,
                };
                proof {
                    assert(e == brick_entity(row as int, col as int));
                }
                store.create(e);
                col = col + 1;
            }
            row = row + 1;
            proof {
                assert forall|r: int, c: int|
                    0 <= r < row && 0 <= c < BRICK_COLUMNS implies store.entities@[6 + r
                    * BRICK_COLUMNS + c] == #[trigger] brick_entity(r, c) by {}
            }
        }
        let w = World { store, score: 0 };
        proof {
            let es = w.store.entities@;
            assert(initial_world(w, dir));
            // the only velocity-bearing entity is the ball, which starts
            // well inside the safe band; the only live paddle is handle 0
            assert forall|i: int| 6 <= i < es.len() implies es[i].kind is Brick && es[i].vel
                is None && es[i].health >= 1 by {
                let r = (i - 6) / (BRICK_COLUMNS as int);
                let c = (i - 6) % (BRICK_COLUMNS as int);
                assert(0 <= c < BRICK_COLUMNS);
                assert(0 <= r < BRICK_ROWS);
                assert(i == 6 + r * BRICK_COLUMNS + c);
                assert(es[i] == brick_entity(r, c));
            }
            assert forall|i: int| is_live_paddle(es, i) implies i == 0 by {}
            assert(is_live_paddle(es, 0));
            assert(paddle_placed(es[0]));
            assert(motion_ok(es));
            assert(w.wf());
        }
        w
    }
}

} // verus!
