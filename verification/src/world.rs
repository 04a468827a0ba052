//! The simulation state and the fixed-tick pipeline.
//!
//! A [`World`] owns the entity store and the score counter.  Each tick runs
//! the paddle controller, then the motion system, then the
//! collision-resolution pass, exactly in that order; every step is an
//! exact function of the previous state and the held input signals.

use vstd::prelude::*;
use crate::collision::{resolve_from, sweep};
use crate::config::{
    PADDLE_WIDTH, PADDLE_HEIGHT, PADDLE_SPEED, PADDLE_START_Y, PADDLE_MIN_X, PADDLE_MAX_X,
    POS_SAFE, VEL_LIMIT,
};
use crate::geometry::Vec2i;
use crate::store::{Entity, Kind, Store, entity_wf, live};

verus! {

/// The discrete input signals one tick consumes: whether each of the two
/// steering keys is currently held.
#[derive(Clone, Copy, PartialEq, Eq, Structural, Debug)]
pub struct InputState {
    pub move_left: bool,
    pub move_right: bool,
}

/// The whole simulation state: the entity store and the score counter.
pub struct World {
    pub store: Store,
    pub score: u64,
}

/// Whether handle `i` names the live paddle of `es`.
pub open spec fn is_live_paddle(es: Seq<Entity>, i: int) -> bool {
    live(es, i) && es[i].kind is Paddle
}

/// Where a well-formed world keeps its paddle: on the fixed track, with
/// the configured size and no velocity of its own.
pub open spec fn paddle_placed(e: Entity) -> bool {
    &&& e.pos.y == PADDLE_START_Y
    &&& PADDLE_MIN_X <= e.pos.x <= PADDLE_MAX_X
    &&& e.size == (Vec2i { x: PADDLE_WIDTH, y: PADDLE_HEIGHT })
}

/// The handle of the live paddle (unique in a well-formed world).
pub open spec fn paddle_index(es: Seq<Entity>) -> int {
    choose|i: int| is_live_paddle(es, i)
}

impl World {
    /// The invariant every tick preserves: all records obey the store's
    /// per-entity invariant, exactly one live paddle exists and sits on
    /// its track, and every live brick still has health to lose (a brick
    /// whose health reached zero was removed by the tick that struck it).
    pub open spec fn wf(self) -> bool {
        let es = self.store.entities@;
        &&& self.store.wf()
        &&& exists|i: int| is_live_paddle(es, i)
        &&& forall|i: int, j: int| is_live_paddle(es, i) && is_live_paddle(es, j) ==> i == j
        &&& forall|i: int| is_live_paddle(es, i) ==> paddle_placed(es[i])
        &&& forall|i: int|
            live(es, i) && es[i].kind is Brick ==> (#[trigger] es[i]).health >= 1
    }

    /// The current score, for the presentation layer's text.
    pub fn score(&self) -> (r: u64)
        ensures
            r == self.score,
    {
        self.score
    }
}

/// Net steering direction: each held signal contributes one signed unit.
pub open spec fn input_dir(inp: InputState) -> int {
    (if inp.move_right {
        1int
    } else {
        0int
    }) - (if inp.move_left {
        1int
    } else {
        0int
    })
}

/// x clamped to the paddle's track.
pub open spec fn clamp_paddle_x(x: int) -> int {
    if x < PADDLE_MIN_X {
        PADDLE_MIN_X as int
    } else if x > PADDLE_MAX_X {
        PADDLE_MAX_X as int
    } else {
        x
    }
}

/// Where the paddle controller puts the paddle's center: one speed-sized
/// step in the net input direction, clamped to the track.
pub open spec fn paddle_target_x(x: int, inp: InputState) -> int {
    clamp_paddle_x(x + input_dir(inp) * PADDLE_SPEED)
}

/// The entities after the paddle controller ran: only the paddle's x
/// changed, to [`paddle_target_x`].
pub open spec fn paddle_step(es: Seq<Entity>, inp: InputState) -> Seq<Entity> {
    let p = paddle_index(es);
    es.update(
        p,
        Entity {
            pos: Vec2i { x: paddle_target_x(es[p].pos.x as int, inp) as i64, y: es[p].pos.y },
            ..es[p]
        },
    )
}

/// An entity after one motion step: a velocity-bearing entity advances by
/// its velocity, everything else keeps its position; no other field moves.
pub open spec fn moved_entity(e: Entity) -> Entity {
    match e.vel {
        Some(v) => Entity {
            pos: Vec2i { x: (e.pos.x + v.x) as i64, y: (e.pos.y + v.y) as i64 },
            ..e
        },
        None => e,
    }
}

/// The entities after the motion system ran: every live velocity-bearing
/// entity advanced by its velocity.
pub open spec fn motion_step(es: Seq<Entity>) -> Seq<Entity> {
    es.map_values(
        |e: Entity|
            if e.alive {
                moved_entity(e)
            } else {
                e
            },
    )
}

/// Whether one motion step stays inside the `i64` range: every live
/// velocity-bearing entity sits within [`POS_SAFE`] of the origin.
pub open spec fn motion_ok(es: Seq<Entity>) -> bool {
    forall|i: int|
        live(es, i) && es[i].vel is Some ==> {
            let e = #[trigger] es[i];
            -POS_SAFE <= e.pos.x <= POS_SAFE && -POS_SAFE <= e.pos.y <= POS_SAFE
        }
}

impl World {
    /// The paddle controller.  Reads the held input signals, moves the
    /// unique paddle one clamped step along its track and touches nothing
    /// else; runs before the motion system, outside the velocity path.
    pub fn move_paddle(&mut self, inp: InputState)
        requires
            old(self).wf(),
        ensures
            final(self).wf(),
            final(self).score == old(self).score,
            final(self).store.entities@ == paddle_step(old(self).store.entities@, inp),
    {
        let ghost orig = self.store.entities@;
        let n = self.store.len();
        let mut found: Option<usize> = None;
        for i in 0..n
            invariant
                n == self.store.entities@.len(),
                self.store.entities@ == orig,
                self.score == old(self).score,
                match found {
                    Some(p) => p < i && is_live_paddle(orig, p as int),
                    None => forall|j: int| 0 <= j < i ==> !is_live_paddle(orig, j),
                },
        {
            if found.is_none() {
                let e = self.store.entities[i];
                if e.alive && e.kind == Kind::Paddle {
                    found = Some(i);
                }
            }
        }
        proof {
            if found is None {
                let w = choose|i: int| is_live_paddle(orig, i);
                assert(is_live_paddle(orig, w));
                assert(false);
            }
        }
        let p = match found {
            Some(p) => p,
            None => {
                // unreachable: a well-formed world holds a live paddle
                proof {
                    assert(false);
                }
                0
            },
        };
        proof {
            assert(is_live_paddle(orig, paddle_index(orig)));
            assert(p as int == paddle_index(orig));
            assert(paddle_placed(orig[p as int]));
        }
        let e = self.store.entities[p];
        let mut dir: i64 = 0;
        if inp.move_left {
            dir = dir - 1;
        }
        if inp.move_right {
            dir = dir + 1;
        }
        let mut nx: i64 = e.pos.x + dir * PADDLE_SPEED;
        if nx < PADDLE_MIN_X {
            nx = PADDLE_MIN_X;
        }
        if nx > PADDLE_MAX_X {
            nx = PADDLE_MAX_X;
        }
        let ne = Entity { pos: Vec2i { x: nx, y: e.pos.y }, ..e };
        self.store.entities.set(p, ne);
        proof {
            let es = self.store.entities@;
            assert(nx as int == paddle_target_x(orig[p as int].pos.x as int, inp));
            assert(es == paddle_step(orig, inp));
            assert(entity_wf(ne));
            assert forall|i: int| 0 <= i < es.len() implies entity_wf(#[trigger] es[i]) by {
                if i != p as int {
                    assert(entity_wf(orig[i]));
                }
            }
            assert forall|i: int| is_live_paddle(es, i) implies is_live_paddle(orig, i) by {}
            assert(is_live_paddle(es, p as int));
            assert forall|i: int|
                live(es, i) && es[i].kind is Brick implies (#[trigger] es[i]).health >= 1 by {
                if i != p as int {
                    assert(live(orig, i) && orig[i].kind is Brick);
                }
            }
        }
    }

    /// Whether the next motion step is known to stay inside the `i64`
    /// range; callers outside the proofs test this before a tick.
    pub fn motion_fits(&self) -> (r: bool)
        ensures
            r == motion_ok(self.store.entities@),
    {
        let n = self.store.len();
        for i in 0..n
            invariant
                n == self.store.entities@.len(),
                forall|j: int|
                    0 <= j < i && live(self.store.entities@, j) && self.store.entities@[j].vel
                        is Some ==> {
                        let e = #[trigger] self.store.entities@[j];
                        -POS_SAFE <= e.pos.x <= POS_SAFE && -POS_SAFE <= e.pos.y <= POS_SAFE
                    },
        {
            let e = self.store.entities[i];
            if e.alive && e.vel.is_some() {
                if e.pos.x < -POS_SAFE || e.pos.x > POS_SAFE || e.pos.y < -POS_SAFE || e.pos.y
                    > POS_SAFE {
                    return false;
                }
            }
        }
        true
    }

    /// The motion system.  Advances every live velocity-bearing entity's
    /// position by its velocity — one fixed tick of `position += velocity
    /// * dt` in sub-units — and performs no clamping of its own.
    pub fn apply_velocity(&mut self)
        requires
            old(self).wf(),
            motion_ok(old(self).store.entities@),
        ensures
            final(self).wf(),
            final(self).score == old(self).score,
            final(self).store.entities@ == motion_step(old(self).store.entities@),
    {
        let ghost orig = self.store.entities@;
        let n = self.store.len();
        for i in 0..n
            invariant
                n == self.store.entities@.len(),
                orig.len() == n,
                self.score == old(self).score,
                motion_ok(orig),
                forall|j: int| 0 <= j < orig.len() ==> entity_wf(#[trigger] orig[j]),
                forall|j: int|
                    0 <= j < i ==> self.store.entities@[j] == (if orig[j].alive {
                        moved_entity(#[trigger] orig[j])
                    } else {
                        orig[j]
                    }),
                forall|j: int| i <= j < n ==> self.store.entities@[j] == #[trigger] orig[j],
        {
            let e = self.store.entities[i];
            if e.alive {
                match e.vel {
                    Some(v) => {
                        proof {
                            assert(live(orig, i as int) && orig[i as int].vel is Some);
                            assert(entity_wf(orig[i as int]));
                        }
                        let ne = Entity { pos: Vec2i { x: e.pos.x + v.x, y: e.pos.y + v.y }, ..e };
                        self.store.entities.set(i, ne);
                    },
                    None => {},
                }
            }
        }
        proof {
            let es = self.store.entities@;
            assert(es =~= motion_step(orig));
            assert forall|i: int| 0 <= i < es.len() implies entity_wf(#[trigger] es[i]) by {
                assert(entity_wf(orig[i]));
            }
            assert forall|i: int| is_live_paddle(es, i) implies is_live_paddle(orig, i) by {}
            assert forall|i: int| is_live_paddle(orig, i) implies is_live_paddle(es, i) by {}
            let p = choose|i: int| is_live_paddle(orig, i);
            assert(is_live_paddle(es, p));
            assert forall|i: int| is_live_paddle(es, i) implies paddle_placed(es[i]) by {
                assert(is_live_paddle(orig, i));
                assert(orig[i].vel is None);
            }
            assert forall|i: int|
                live(es, i) && es[i].kind is Brick implies (#[trigger] es[i]).health >= 1 by {
                assert(live(orig, i) && orig[i].kind is Brick);
            }
        }
    }

    /// An explicit runtime check of the tick invariant [`World::wf`]:
    /// `true` exactly when it holds.  A violation — above all a world
    /// with zero or two live paddles — is a programming error the
    /// simulation cannot recover from, so a caller that assembled a
    /// world by hand should check once and abort on `false` rather than
    /// tick on.
    pub fn wf_check(&self) -> (r: bool)
        ensures
            r == self.wf(),
    {
        let ghost es = self.store.entities@;
        let n = self.store.len();
        let mut paddle: Option<usize> = None;
        for i in 0..n
            invariant
                n == es.len(),
                es == self.store.entities@,
                forall|j: int| 0 <= j < i ==> entity_wf(#[trigger] es[j]),
                match paddle {
                    Some(p) => {
                        &&& p < i
                        &&& is_live_paddle(es, p as int)
                        &&& paddle_placed(es[p as int])
                        &&& forall|j: int| 0 <= j < i && is_live_paddle(es, j) ==> j == p as int
                    },
                    None => forall|j: int| 0 <= j < i ==> !is_live_paddle(es, j),
                },
                forall|j: int|
                    0 <= j < i && live(es, j) && es[j].kind is Brick ==> (#[trigger] es[j]).health
                        >= 1,
        {
            let e = self.store.entities[i];
            let vel_ok = match e.vel {
                Some(v) => e.kind == Kind::Ball && -VEL_LIMIT <= v.x && v.x <= VEL_LIMIT
                    && -VEL_LIMIT <= v.y && v.y <= VEL_LIMIT,
                None => !(e.kind == Kind::Ball),
            };
            let health_ok = !(e.kind == Kind::Brick) || e.health >= 0;
            if !(e.size.x > 0 && e.size.y > 0 && vel_ok && health_ok) {
                proof {
                    assert(!entity_wf(es[i as int]));
                    assert(!self.store.wf());
                }
                return false;
            }
            if e.alive && e.kind == Kind::Paddle {
                match paddle {
                    Some(p) => {
                        proof {
                            assert(is_live_paddle(es, p as int) && is_live_paddle(es, i as int)
                                && p as int != i as int);
                        }
                        return false;
                    },
                    None => {
                        if !(e.pos.y == PADDLE_START_Y && e.pos.x >= PADDLE_MIN_X && e.pos.x
                            <= PADDLE_MAX_X && e.size.x == PADDLE_WIDTH && e.size.y
                            == PADDLE_HEIGHT) {
                            proof {
                                assert(is_live_paddle(es, i as int) && !paddle_placed(
                                    es[i as int],
                                ));
                            }
                            return false;
                        }
                        paddle = Some(i);
                    },
                }
            }
            if e.alive && e.kind == Kind::Brick && e.health < 1 {
                proof {
                    assert(live(es, i as int) && es[i as int].kind is Brick && es[i as int].health
                        < 1);
                }
                return false;
            }
        }
        match paddle {
            Some(p) => {
                proof {
                    assert(is_live_paddle(es, p as int));
                    assert forall|i: int, j: int|
                        is_live_paddle(es, i) && is_live_paddle(es, j) implies i == j by {
                        assert(i == p as int && j == p as int);
                    }
                    assert forall|i: int| is_live_paddle(es, i) implies paddle_placed(es[i]) by {
                        assert(i == p as int);
                    }
                    assert(self.wf());
                }
                true
            },
            None => {
                proof {
                    if self.wf() {
                        let w = choose|i: int| is_live_paddle(es, i);
                        assert(is_live_paddle(es, w));
                        assert(false);
                    }
                }
                false
            },
        }
    }

    /// One fixed tick: paddle controller, then motion, then collision
    /// resolution, in that order.  The flag reports whether a brick was
    /// struck this tick (the cue for the presentation layer's sound).
    pub fn tick(&mut self, inp: InputState) -> (hit: bool)
        requires
            old(self).wf(),
            motion_ok(old(self).store.entities@),
        ensures
            final(self).wf(),
            ({
                let es1 = motion_step(paddle_step(old(self).store.entities@, inp));
                let r = resolve_from(es1, old(self).score as int, false, 0);
                &&& final(self).store.entities@ == sweep(r.0)
                &&& final(self).score as int == r.1
                &&& hit == r.2
            }),
    {
        let ghost es0 = self.store.entities@;
        self.move_paddle(inp);
        proof {
            let es1 = self.store.entities@;
            let p = paddle_index(es0);
            assert(is_live_paddle(es0, p));
            assert(entity_wf(es0[p]));
            assert forall|i: int| live(es1, i) && es1[i].vel is Some implies {
                let e = #[trigger] es1[i];
                -POS_SAFE <= e.pos.x <= POS_SAFE && -POS_SAFE <= e.pos.y <= POS_SAFE
            } by {
                if i == p {
                    // the paddle bears no velocity, so this case is vacuous
                    assert(es1[i].vel == es0[p].vel);
                } else {
                    assert(es1[i] == es0[i]);
                }
            }
            assert(motion_ok(es1));
        }
        self.apply_velocity();
        self.check_ball_collisions()
    }
}

} // verus!
