//! The collision-resolution pass: the core of the simulation.
//!
//! Every live ball is checked against every live collider in handle
//! order, with no early termination: a ball meeting two bricks in one
//! tick bounces twice, which is the intended behaviour.  A detected
//! collision reflects the ball's velocity on the independent axes the
//! struck side calls for; a struck brick costs one health, scores one
//! point, and is removed — at the end of the pass, so a removal is never
//! seen by checks still in flight within the same tick.

use vstd::prelude::*;
use crate::geometry::{detect, detect_spec, bounce, reflected};
use crate::store::{Entity, Kind, entity_wf, live};
use crate::world::{World, is_live_paddle, paddle_placed, paddle_index};

verus! {

/// The score counter after one increment: it saturates instead of
/// wrapping, so a tick never panics however long the game has run.
pub open spec fn sat_inc(score: int) -> int {
    if score < u64::MAX {
        score + 1
    } else {
        score
    }
}

/// A brick after one hit: it loses one health, floored at zero; no other
/// field changes (in particular its size does not shrink).
pub open spec fn struck_brick(e: Entity) -> Entity {
    Entity {
        health: if e.health <= 0 {
            0
        } else {
            (e.health - 1) as i8
        },
        ..e
    }
}

/// The effect of checking ball `bi` against the record under `ci`:
/// nothing happens unless `ci` names a live non-ball collider and the
/// boxes overlap; otherwise the ball's velocity is reflected, and a brick
/// additionally takes a hit and scores a point.  The third component
/// tells whether a brick was struck.
pub open spec fn collide_one(es: Seq<Entity>, score: int, bi: int, ci: int) -> (
    Seq<Entity>,
    int,
    bool,
) {
    let ball = es[bi];
    let other = es[ci];
    if !(0 <= bi < es.len()) || !(0 <= ci < es.len()) || !other.alive || other.kind is Ball || !(
    ball.vel is Some) {
        (es, score, false)
    } else {
        match detect_spec(ball.pos, ball.size, other.pos, other.size) {
            None => (es, score, false),
            Some(side) => {
                let es1 = es.update(
                    bi,
                    Entity { vel: Some(reflected(side, ball.vel.unwrap())), ..ball },
                );
                if other.kind is Brick {
                    (es1.update(ci, struck_brick(other)), sat_inc(score), true)
                } else {
                    (es1, score, false)
                }
            },
        }
    }
}

/// Ball `bi` checked against the colliders from `ci` on, in handle order.
/// One collider check never adds or removes records.
pub proof fn lemma_collide_one_len(es: Seq<Entity>, score: int, bi: int, ci: int)
    ensures
        collide_one(es, score, bi, ci).0.len() == es.len(),
{
    let ball = es[bi];
    let other = es[ci];
    if !(0 <= bi < es.len()) || !(0 <= ci < es.len()) || !other.alive || other.kind is Ball || !(
    ball.vel is Some) {
    } else {
        match detect_spec(ball.pos, ball.size, other.pos, other.size) {
            None => {},
            Some(side) => {
                let es1 = es.update(
                    bi,
                    Entity { vel: Some(reflected(side, ball.vel.unwrap())), ..ball },
                );
                assert(es1.len() == es.len());
                if other.kind is Brick {
                    assert(es1.update(ci, struck_brick(other)).len() == es.len());
                }
            },
        }
    }
}

#[via_fn]
proof fn resolve_ball_from_decreases(es: Seq<Entity>, score: int, hit: bool, bi: int, ci: int) {
    if 0 <= ci && ci < es.len() {
        lemma_collide_one_len(es, score, bi, ci);
    }
}

pub open spec fn resolve_ball_from(es: Seq<Entity>, score: int, hit: bool, bi: int, ci: int) -> (
    Seq<Entity>,
    int,
    bool,
)
    decreases es.len() - ci,
    via resolve_ball_from_decreases
{
    if ci < 0 || ci >= es.len() {
        (es, score, hit)
    } else {
        let r = collide_one(es, score, bi, ci);
        resolve_ball_from(r.0, r.1, hit || r.2, bi, ci + 1)
    }
}

/// The collision pass never adds or removes records.
pub proof fn lemma_resolve_ball_len(es: Seq<Entity>, score: int, hit: bool, bi: int, ci: int)
    ensures
        resolve_ball_from(es, score, hit, bi, ci).0.len() == es.len(),
    decreases es.len() - ci,
{
    if ci < 0 || ci >= es.len() {
    } else {
        let r = collide_one(es, score, bi, ci);
        lemma_resolve_ball_len(r.0, r.1, hit || r.2, bi, ci + 1);
    }
}

#[via_fn]
proof fn resolve_from_decreases(es: Seq<Entity>, score: int, hit: bool, bi: int) {
    if 0 <= bi && bi < es.len() && es[bi].alive && es[bi].kind is Ball {
        lemma_resolve_ball_len(es, score, hit, bi, 0);
    }
}

/// The whole pass: every live ball from `bi` on, in handle order, runs
/// [`resolve_ball_from`] over all colliders, each ball seeing the
/// mutations the previous balls made.
pub open spec fn resolve_from(es: Seq<Entity>, score: int, hit: bool, bi: int) -> (
    Seq<Entity>,
    int,
    bool,
)
    decreases es.len() - bi,
    via resolve_from_decreases
{
    if bi < 0 || bi >= es.len() {
        (es, score, hit)
    } else if es[bi].alive && es[bi].kind is Ball {
        let r = resolve_ball_from(es, score, hit, bi, 0);
        resolve_from(r.0, r.1, r.2, bi + 1)
    } else {
        resolve_from(es, score, hit, bi + 1)
    }
}

/// A record at the end of the pass: a brick whose health is exhausted is
/// removed (its liveness flag cleared); everything else stays.
pub open spec fn swept_entity(e: Entity) -> Entity {
    if e.kind is Brick && e.health <= 0 {
        Entity { alive: false, ..e }
    } else {
        e
    }
}

/// Deferred removal: the sweep at the end of the pass.
pub open spec fn sweep(es: Seq<Entity>) -> Seq<Entity> {
    es.map_values(|e: Entity| swept_entity(e))
}

/// Brick destruction: a brick holding one health that a ball strikes is
/// left with zero health, scores exactly one point (as long as the score
/// counter has not saturated), and the sweep at the end of the pass
/// removes it; its health never goes below zero.
pub proof fn lemma_brick_destruction(es: Seq<Entity>, score: int, bi: int, ci: int)
    requires
        0 <= bi < es.len(),
        0 <= ci < es.len(),
        es[bi].vel is Some,
        live(es, ci),
        es[ci].kind is Brick,
        es[ci].health == 1,
        detect_spec(es[bi].pos, es[bi].size, es[ci].pos, es[ci].size) is Some,
        0 <= score < u64::MAX,
    ensures
        collide_one(es, score, bi, ci).1 == score + 1,
        collide_one(es, score, bi, ci).2,
        collide_one(es, score, bi, ci).0[ci].health == 0,
        !sweep(collide_one(es, score, bi, ci).0)[ci].alive,
{
    let r = collide_one(es, score, bi, ci);
    lemma_collide_one_len(es, score, bi, ci);
    assert(r.0[ci] == struck_brick(es[ci]));
    assert(sweep(r.0)[ci] == swept_entity(r.0[ci]));
}

impl World {
    /// The collision-resolution system.  Runs the full pass over the
    /// current state and applies the deferred brick removals; the result
    /// is exactly [`resolve_from`] followed by [`sweep`], and the flag
    /// reports whether any brick was struck (the cue for a sound effect).
    pub fn check_ball_collisions(&mut self) -> (hit: bool)
        requires
            old(self).wf(),
        ensures
            final(self).wf(),
            ({
                let r = resolve_from(
                    old(self).store.entities@,
                    old(self).score as int,
                    false,
                    0,
                );
                &&& final(self).store.entities@ == sweep(r.0)
                &&& final(self).score as int == r.1
                &&& hit == r.2
            }),
    {
        let ghost orig = self.store.entities@;
        let ghost s0 = self.score as int;
        let mut hit = false;
        let n = self.store.len();
        for bi in 0..n
            invariant
                n == self.store.entities@.len(),
                self.store.wf(),
                forall|j: int|
                    0 <= j < n ==> {
                        let e = #[trigger] self.store.entities@[j];
                        e.kind == orig[j].kind && e.alive == orig[j].alive && e.pos == orig[j].pos
                            && e.size == orig[j].size
                    },
                orig.len() == n,
                resolve_from(orig, s0, false, 0) == resolve_from(
                    self.store.entities@,
                    self.score as int,
                    hit,
                    bi as int,
                ),
        {
            let b = self.store.entities[bi];
            if b.alive && b.kind == Kind::Ball {
                proof {
                    assert(resolve_from(self.store.entities@, self.score as int, hit, bi as int)
                        == ({
                        let r = resolve_ball_from(
                            self.store.entities@,
                            self.score as int,
                            hit,
                            bi as int,
                            0,
                        );
                        resolve_from(r.0, r.1, r.2, bi as int + 1)
                    }));
                }
                for ci in 0..n
                    invariant
                        n == self.store.entities@.len(),
                        self.store.wf(),
                        forall|j: int|
                            0 <= j < n ==> {
                                let e = #[trigger] self.store.entities@[j];
                                e.kind == orig[j].kind && e.alive == orig[j].alive && e.pos
                                    == orig[j].pos && e.size == orig[j].size
                            },
                        orig.len() == n,
                        bi < n,
                        self.store.entities@[bi as int].alive,
                        self.store.entities@[bi as int].kind is Ball,
                        resolve_from(orig, s0, false, 0) == ({
                            let r = resolve_ball_from(
                                self.store.entities@,
                                self.score as int,
                                hit,
                                bi as int,
                                ci as int,
                            );
                            resolve_from(r.0, r.1, r.2, bi as int + 1)
                        }),
                {
                    let ghost pre_es = self.store.entities@;
                    let ghost pre_score = self.score as int;
                    let ghost pre_hit = hit;
                    let o = self.store.entities[ci];
                    if o.alive && !(o.kind == Kind::Ball) {
                        let ball = self.store.entities[bi];
                        proof {
                            assert(entity_wf(pre_es[bi as int]));
                        }
                        match detect(ball.pos, ball.size, o.pos, o.size) {
                            None => {
                                proof {
                                    assert(collide_one(pre_es, pre_score, bi as int, ci as int)
                                        == (pre_es, pre_score, false));
                                }
                            },
                            Some(side) => {
                                let v = ball.vel.unwrap();
                                let nv = bounce(side, v);
                                let nb = Entity { vel: Some(nv), ..ball };
                                proof {
                                    assert(entity_wf(nb));
                                }
                                self.store.entities.set(bi, nb);
                                if o.kind == Kind::Brick {
                                    if self.score < u64::MAX {
                                        self.score = self.score + 1;
                                    }
                                    let nh: i8 = if o.health <= 0 {
                                        0
                                    } else {
                                        o.health - 1
                                    };
                                    let ns = Entity { health: nh, ..o };
                                    proof {
                                        assert(entity_wf(pre_es[ci as int]));
                                        assert(entity_wf(ns));
                                    }
                                    self.store.entities.set(ci, ns);
                                    hit = true;
                                    proof {
                                        let r = collide_one(pre_es, pre_score, bi as int, ci as int);
                                        assert(ns == struck_brick(pre_es[ci as int]));
                                        assert(self.store.entities@ == r.0);
                                        assert(self.score as int == r.1);
                                        assert(hit == (pre_hit || r.2));
                                    }
                                } else {
                                    proof {
                                        let r = collide_one(pre_es, pre_score, bi as int, ci as int);
                                        assert(self.store.entities@ == r.0);
                                        assert(self.score as int == r.1);
                                        assert(hit == (pre_hit || r.2));
                                    }
                                }
                            },
                        }
                    } else {
                        proof {
                            assert(collide_one(pre_es, pre_score, bi as int, ci as int) == (
                                pre_es,
                                pre_score,
                                false,
                            ));
                        }
                    }
                    proof {
                        let r = collide_one(pre_es, pre_score, bi as int, ci as int);
                        assert(self.store.entities@ == r.0 && self.score as int == r.1 && hit == (
                        pre_hit || r.2));
                        assert(resolve_ball_from(pre_es, pre_score, pre_hit, bi as int, ci as int)
                            == resolve_ball_from(r.0, r.1, pre_hit || r.2, bi as int, ci as int + 1));
                        assert forall|j: int| 0 <= j < n implies entity_wf(
                            #[trigger] self.store.entities@[j],
                        ) by {
                            assert(entity_wf(pre_es[j]));
                        }
                    }
                }
                proof {
                    assert(resolve_ball_from(
                        self.store.entities@,
                        self.score as int,
                        hit,
                        bi as int,
                        n as int,
                    ) == (self.store.entities@, self.score as int, hit));
                }
            } else {
                proof {
                    assert(resolve_from(self.store.entities@, self.score as int, hit, bi as int)
                        == resolve_from(self.store.entities@, self.score as int, hit, bi as int + 1));
                }
            }
        }
        proof {
            assert(resolve_from(self.store.entities@, self.score as int, hit, n as int) == (
                self.store.entities@,
                self.score as int,
                hit,
            ));
        }
        let ghost resolved = self.store.entities@;
        let n2 = self.store.len();
        for i in 0..n2
            invariant
                n2 == self.store.entities@.len(),
                resolved.len() == n2,
                self.score as int == resolve_from(orig, s0, false, 0).1,
                hit == resolve_from(orig, s0, false, 0).2,
                forall|j: int|
                    0 <= j < i ==> self.store.entities@[j] == swept_entity(#[trigger] resolved[j]),
                forall|j: int| i <= j < n2 ==> self.store.entities@[j] == #[trigger] resolved[j],
        {
            let e = self.store.entities[i];
            if e.kind == Kind::Brick && e.health <= 0 {
                self.store.entities.set(i, Entity { alive: false, ..e });
            }
        }
        proof {
            let es = self.store.entities@;
            assert(es =~= sweep(resolved));
            // the pass and the sweep preserve well-formedness
            assert forall|i: int| 0 <= i < es.len() implies entity_wf(#[trigger] es[i]) by {
                assert(entity_wf(resolved[i]));
            }
            assert forall|i: int| is_live_paddle(es, i) implies is_live_paddle(orig, i) by {
                assert(es[i] == swept_entity(resolved[i]));
            }
            let p = paddle_index(orig);
            assert(is_live_paddle(orig, p));
            assert(resolved[p].kind == orig[p].kind && resolved[p].alive == orig[p].alive);
            assert(es[p] == swept_entity(resolved[p]));
            assert(is_live_paddle(es, p));
            assert forall|i: int| is_live_paddle(es, i) implies paddle_placed(es[i]) by {
                assert(is_live_paddle(orig, i));
                assert(paddle_placed(orig[i]));
                assert(es[i] == swept_entity(resolved[i]));
            }
            assert forall|i: int|
                live(es, i) && es[i].kind is Brick implies (#[trigger] es[i]).health >= 1 by {
                assert(es[i] == swept_entity(resolved[i]));
                assert(entity_wf(resolved[i]));
            }
        }
        hit
    }
}

} // verus!
