use breakout_core::config::{
    BALL_SIZE, BRICK_HEIGHT, BRICK_WIDTH, PADDLE_HEIGHT, PADDLE_MIN_X, PADDLE_START_Y,
    PADDLE_WIDTH, SCALE,
};
use breakout_core::geometry::Vec2i;
use breakout_core::store::{Entity, Kind, Store};
use breakout_core::world::{InputState, World};

fn v(x: i64, y: i64) -> Vec2i {
    Vec2i { x, y }
}

fn paddle() -> Entity {
    Entity {
        kind: Kind::Paddle,
        pos: v(0, PADDLE_START_Y),
        size: v(PADDLE_WIDTH, PADDLE_HEIGHT),
        vel: None,
        health: 0,
        alive: true,
    }
}

/// The scenario world: a ball at the origin moving right at 400 units/s
/// and a brick of one health ahead of it, plus the mandatory paddle.
fn scenario_world() -> World {
    let mut store = Store::new();
    store.create(paddle());
    store.create(Entity {
        kind: Kind::Ball,
        pos: v(0, 0),
        size: v(BALL_SIZE, BALL_SIZE),
        vel: Some(v(400, 0)),
        health: 0,
        alive: true,
    });
    store.create(Entity {
        kind: Kind::Brick,
        pos: v(50 * SCALE, 0),
        size: v(BRICK_WIDTH, BRICK_HEIGHT),
        vel: None,
        health: 1,
        alive: true,
    });
    World { store, score: 0 }
}

fn neutral() -> InputState {
    InputState { move_left: false, move_right: false }
}

fn hard_left() -> InputState {
    InputState { move_left: true, move_right: false }
}

#[test]
fn store_handles_are_stable_and_removal_is_idempotent() {
    let mut store = Store::new();
    let h0 = store.create(paddle());
    let h1 = store.create(Entity {
        kind: Kind::Brick,
        pos: v(0, 0),
        size: v(BRICK_WIDTH, BRICK_HEIGHT),
        vel: None,
        health: 1,
        alive: true,
    });
    assert_eq!(h0, 0);
    assert_eq!(h1, 1);
    assert!(store.get(h1).is_some());
    store.remove(h1);
    // a stale handle answers None and never invalidates its neighbours
    assert!(store.get(h1).is_none());
    assert!(store.get(h0).is_some());
    // removing again is a no-op, as is removing out of range
    store.remove(h1);
    store.remove(77);
    assert_eq!(store.len(), 2);
    // writing through a stale handle is refused
    assert!(!store.set(h1, paddle()));
    // the snapshot shows only live records
    let snap = store.snapshot();
    assert_eq!(snap.len(), 1);
    assert!(matches!(snap[0].kind, Kind::Paddle));
}

#[test]
fn new_world_has_the_configured_roster() {
    let w = World::new(0);
    assert_eq!(w.score, 0);
    assert_eq!(w.store.len(), 70);
    let p = w.store.get(0).unwrap();
    assert!(matches!(p.kind, Kind::Paddle));
    assert_eq!(p.pos, v(0, PADDLE_START_Y));
    let b = w.store.get(1).unwrap();
    assert!(matches!(b.kind, Kind::Ball));
    assert_eq!(b.pos, v(0, -50 * SCALE));
    assert_eq!(b.vel, Some(v(400, 0)));
    // bottom-left brick: handle 6; top-right brick: handle 69
    let first = w.store.get(6).unwrap();
    assert!(matches!(first.kind, Kind::Brick));
    assert_eq!(first.pos, v(-22800, -900));
    assert_eq!(first.health, 1);
    let last = w.store.get(69).unwrap();
    assert_eq!(last.pos, v(21300, 13800));
    assert!(w.wf_check());
    assert!(w.motion_fits());
}

#[test]
fn random_world_draws_one_of_the_eight_directions() {
    let w = World::new_random();
    assert!(w.wf_check());
    let b = w.store.get(1).unwrap();
    let vel = b.vel.unwrap();
    let table = [
        v(400, 0),
        v(283, 283),
        v(0, 400),
        v(-283, 283),
        v(-400, 0),
        v(-283, -283),
        v(0, -400),
        v(283, -283),
    ];
    assert!(table.contains(&vel));
}

#[test]
fn scenario_ball_destroys_the_brick() {
    // ball at (0,0), 30x30, moving (400,0) units/s; brick at (50,0),
    // 100x30, health 1.  Their boxes already overlap by 15 units on x,
    // so the very first tick detects a Left-face hit: the x velocity
    // flips, the score goes to 1 and the brick is removed.
    let mut w = scenario_world();
    assert!(w.wf_check());
    let hit = w.tick(neutral());
    assert!(hit);
    assert_eq!(w.score(), 1);
    let b = w.store.get(1).unwrap();
    // one motion step happened before the bounce
    assert_eq!(b.pos, v(400, 0));
    assert_eq!(b.vel, Some(v(-400, 0)));
    // the brick is gone, atomically with the tick that struck it
    assert!(w.store.get(2).is_none());
    // and the next tick finds nothing left to hit
    let hit2 = w.tick(neutral());
    assert!(!hit2);
    assert_eq!(w.score(), 1);
}

#[test]
fn brick_health_is_never_negative() {
    let mut w = scenario_world();
    w.tick(neutral());
    // the struck brick is dead but its record still shows health 0
    assert_eq!(w.store.entities[2].health, 0);
    assert!(!w.store.entities[2].alive);
}

#[test]
fn score_saturates_instead_of_wrapping() {
    let mut w = scenario_world();
    w.score = u64::MAX;
    let hit = w.tick(neutral());
    assert!(hit);
    assert_eq!(w.score(), u64::MAX);
}

#[test]
fn paddle_stops_exactly_at_the_left_clamp() {
    let mut w = World::new(0);
    for _ in 0..60 {
        w.tick(hard_left());
        let p = w.store.get(0).unwrap();
        // never below the stop, whatever the tick
        assert!(p.pos.x >= PADDLE_MIN_X);
        assert_eq!(p.pos.y, PADDLE_START_Y);
    }
    // 60 ticks cover the whole track: the paddle sits exactly on the stop
    assert_eq!(w.store.get(0).unwrap().pos.x, PADDLE_MIN_X);
    w.tick(hard_left());
    assert_eq!(w.store.get(0).unwrap().pos.x, PADDLE_MIN_X);
}

#[test]
fn paddle_speed_is_exact() {
    let mut w = World::new(0);
    w.tick(hard_left());
    // one tick at 500 units/s moves 500 sub-units
    assert_eq!(w.store.get(0).unwrap().pos.x, -500);
}

#[test]
fn motion_is_exactly_linear_over_sixty_ticks() {
    let mut w = World::new(0);
    let mut b = w.store.get(1).unwrap();
    b.vel = Some(v(100, 0));
    assert!(w.store.set(1, b));
    for _ in 0..60 {
        w.apply_velocity();
    }
    // 60 ticks at 100 units/s displace exactly 100 world units
    let after = w.store.get(1).unwrap();
    assert_eq!(after.pos.x, 100 * SCALE);
    assert_eq!(after.pos.y, -50 * SCALE);
}

#[test]
fn adjacent_bricks_are_each_processed_in_one_tick() {
    // a ball overlapping two bricks strikes both in handle order, with
    // no early termination: the first hit flips the x velocity, the
    // second still scores but finds the ball already moving away, so it
    // reflects nothing.  Both bricks die in the same tick.
    let mut w = scenario_world();
    w.store.create(Entity {
        kind: Kind::Brick,
        pos: v(50 * SCALE, 5 * SCALE),
        size: v(BRICK_WIDTH, BRICK_HEIGHT),
        vel: None,
        health: 1,
        alive: true,
    });
    assert!(w.wf_check());
    let hit = w.tick(neutral());
    assert!(hit);
    assert_eq!(w.score(), 2);
    assert_eq!(w.store.get(1).unwrap().vel, Some(v(-400, 0)));
    assert!(w.store.get(2).is_none());
    assert!(w.store.get(3).is_none());
}

#[test]
fn ball_bounces_off_the_right_wall_without_scoring() {
    // from (0,-50) at (400,0) units/s the ball first overlaps the right
    // wall on tick 65; a wall reflects but never scores
    let mut w = World::new(0);
    for t in 1..=65u32 {
        let hit = w.tick(neutral());
        assert!(!hit, "no brick lies on this path (tick {t})");
    }
    let b = w.store.get(1).unwrap();
    assert_eq!(b.pos, v(65 * 400, -50 * SCALE));
    assert_eq!(b.vel, Some(v(-400, 0)));
    assert_eq!(w.score(), 0);
}

#[test]
fn wf_check_rejects_missing_or_doubled_paddles() {
    let empty = World { store: Store::new(), score: 0 };
    assert!(!empty.wf_check());
    let mut store = Store::new();
    store.create(paddle());
    store.create(paddle());
    let doubled = World { store, score: 0 };
    assert!(!doubled.wf_check());
    let good = scenario_world();
    assert!(good.wf_check());
}

#[test]
fn snapshot_after_destruction_omits_the_brick() {
    let mut w = scenario_world();
    w.tick(neutral());
    let snap = w.store.snapshot();
    assert_eq!(snap.len(), 2);
    assert!(matches!(snap[0].kind, Kind::Paddle));
    assert!(matches!(snap[1].kind, Kind::Ball));
}
