//! The entity store: every live game object with its components.
//!
//! Entities are addressed by a stable handle (their index of creation).
//! Removal only clears a liveness flag, so it is O(1), idempotent, and
//! never invalidates other handles; a stale handle is answered with `None`
//! rather than a crash.

use vstd::prelude::*;
use crate::config::VEL_LIMIT;
use crate::geometry::Vec2i;

verus! {

/// What a game object is.  The kind decides which components are
/// meaningful and how the collision pass treats the entity: balls are the
/// moving probes, everything else is a collider.
#[derive(Clone, Copy, PartialEq, Eq, Structural, Debug)]
pub enum Kind {
    /// The player-driven bat.  Exactly one live paddle exists at all times.
    Paddle,
    /// A moving probe: carries a velocity and bounces off colliders.
    Ball,
    /// A static arena boundary; never moves and is never destroyed.
    Wall,
    /// A destructible target with health.
    Brick,
}

/// One game object: its kind, the center of its bounding box, the full
/// width and height of that box, an optional velocity (balls only), the
/// remaining health (meaningful for bricks) and a liveness flag.
#[derive(Clone, Copy, Debug)]
pub struct Entity {
    pub kind: Kind,
    pub pos: Vec2i,
    pub size: Vec2i,
    pub vel: Option<Vec2i>,
    pub health: i8,
    pub alive: bool,
}

/// The per-entity invariant the store admits: positive extents, a velocity
/// exactly on balls and bounded so that one motion step and one reflection
/// can never overflow an `i64`, and non-negative brick health.
pub open spec fn entity_wf(e: Entity) -> bool {
    &&& e.size.x > 0 && e.size.y > 0
    &&& (e.kind is Ball <==> e.vel is Some)
    &&& match e.vel {
        Some(v) => -VEL_LIMIT <= v.x <= VEL_LIMIT && -VEL_LIMIT <= v.y <= VEL_LIMIT,
        None => true,
    }
    &&& (e.kind is Brick ==> e.health >= 0)
}

/// Whether handle `i` names a live entity of `es`.
pub open spec fn live(es: Seq<Entity>, i: int) -> bool {
    0 <= i < es.len() && es[i].alive
}

/// The entity store.  Records are kept in creation order; a removed
/// record stays in place with its liveness flag cleared.
pub struct Store {
    pub entities: Vec<Entity>,
}

impl Store {
    /// All records the store ever admitted satisfy [`entity_wf`].
    pub open spec fn wf(self) -> bool {
        forall|i: int| 0 <= i < self.entities@.len() ==> entity_wf(#[trigger] self.entities@[i])
    }

    /// Builds an empty store.
    pub fn new() -> (r: Store)
        ensures
            r.entities@.len() == 0,
            r.wf(),
    {
        Store { entities: Vec::new() }
    }

    /// How many records the store holds, removed ones included.
    pub fn len(&self) -> (r: usize)
        ensures
            r == self.entities@.len(),
    {
        self.entities.len()
    }

    /// Admits a record and hands back its handle: the record is appended
    /// and all existing handles keep their meaning.
    pub fn create(&mut self, e: Entity) -> (h: usize)
        requires
            entity_wf(e),
        ensures
            final(self).entities@ == old(self).entities@.push(e),
            h == old(self).entities@.len(),
            old(self).wf() ==> final(self).wf(),
    {
        let h = self.entities.len();
        self.entities.push(e);
        proof {
            if old(self).wf() {
                assert forall|i: int| 0 <= i < self.entities@.len() implies entity_wf(
                    #[trigger] self.entities@[i],
                ) by {
                    if i < old(self).entities@.len() {
                        assert(entity_wf(old(self).entities@[i]));
                    }
                }
            }
        }
        h
    }

    /// The record under a handle: `Some` exactly when the handle is in
    /// range and the record is still live; a stale or out-of-range handle
    /// is answered with `None`.
    pub fn get(&self, h: usize) -> (r: Option<Entity>)
        ensures
            r == if live(self.entities@, h as int) {
                Some(self.entities@[h as int])
            } else {
                None::<Entity>
            },
    {
        if h < self.entities.len() {
            let e = self.entities[h];
            if e.alive {
                Some(e)
            } else {
                None
            }
        } else {
            None
        }
    }

    /// Removes the record under a handle by clearing its liveness flag.
    /// Idempotent: a stale or out-of-range handle changes nothing, and no
    /// other record is touched.
    pub fn remove(&mut self, h: usize)
        ensures
            final(self).entities@ == if live(old(self).entities@, h as int) {
                old(self).entities@.update(
                    h as int,
                    Entity { alive: false, ..old(self).entities@[h as int] },
                )
            } else {
                old(self).entities@
            },
            old(self).wf() ==> final(self).wf(),
    {
        if h < self.entities.len() {
            let e = self.entities[h];
            if e.alive {
                self.entities.set(h, Entity { alive: false, ..e });
                proof {
                    if old(self).wf() {
                        assert forall|i: int| 0 <= i < self.entities@.len() implies entity_wf(
                            #[trigger] self.entities@[i],
                        ) by {
                            assert(entity_wf(old(self).entities@[i]));
                        }
                    }
                }
            } else {
                proof {
                    assert(final(self).entities@ =~= old(self).entities@);
                }
            }
        } else {
            proof {
                assert(final(self).entities@ =~= old(self).entities@);
            }
        }
    }

    /// Overwrites the record under a live handle, keeping its slot; `true`
    /// exactly when the handle was live and the write happened.
    pub fn set(&mut self, h: usize, e: Entity) -> (ok: bool)
        requires
            entity_wf(e),
        ensures
            ok == live(old(self).entities@, h as int),
            final(self).entities@ == if live(old(self).entities@, h as int) {
                old(self).entities@.update(h as int, e)
            } else {
                old(self).entities@
            },
            old(self).wf() ==> final(self).wf(),
    {
        if h < self.entities.len() {
            let cur = self.entities[h];
            if cur.alive {
                self.entities.set(h, e);
                proof {
                    if old(self).wf() {
                        assert forall|i: int| 0 <= i < self.entities@.len() implies entity_wf(
                            #[trigger] self.entities@[i],
                        ) by {
                            if i != h as int {
                                assert(entity_wf(old(self).entities@[i]));
                            }
                        }
                    }
                }
                return true;
            }
        }
        false
    }

    /// A snapshot of the live records, in creation order, for a
    /// presentation layer to render.
    pub fn snapshot(&self) -> (r: Vec<Entity>)
        ensures
            r@ == self.entities@.filter(|e: Entity| e.alive),
    {
        let mut r: Vec<Entity> = Vec::new();
        proof {
            reveal(Seq::filter);
            assert(self.entities@.take(0).filter(|e: Entity| e.alive) =~= Seq::<Entity>::empty());
        }
        let n = self.entities.len();
        for i in 0..n
            invariant
                n == self.entities@.len(),
                r@ == self.entities@.take(i as int).filter(|e: Entity| e.alive),
        {
            let e = self.entities[i];
            proof {
                assert(self.entities@.take(i + 1) =~= self.entities@.take(i as int).push(e));
                self.entities@.take(i as int).lemma_filter_push(e, |e: Entity| e.alive);
            }
            if e.alive {
                r.push(e);
            }
        }
        proof {
            assert(self.entities@.take(n as int) =~= self.entities@);
        }
        r
    }
}

} // verus!
