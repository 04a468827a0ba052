//! The one place the simulation meets chance: drawing the starting
//! direction of the ball.  Everything downstream of the draw is a
//! verified function of the drawn value.

use vstd::prelude::*;
use crate::setup::initial_world;
use crate::world::{World, motion_ok};

verus! {

/// Relies on rand's `Rng::gen_range` over the half-open range `0..n`:
/// the sample lies in the range, and the call panics only when the range
/// is empty, which `n > 0` rules out.  Nothing is assumed about which
/// value comes back.
#[verifier::external_body]
fn random_below(n: u64) -> (r: u64)
    requires
        n > 0,
    ensures
        r < n,
{
    rand::Rng::gen_range(&mut rand::thread_rng(), 0..n)
}

impl World {
    /// Builds the starting world with a randomly drawn ball direction:
    /// whatever the draw, the result is [`World::new`] of one of the
    /// eight direction indices.
    pub fn new_random() -> (w: World)
        ensures
            w.wf(),
            motion_ok(w.store.entities@),
            exists|d: u64| d < 8 && #[trigger] initial_world(w, d),
    {
        let d = random_below(8);
        let w = World::new(d);
        proof {
            assert(d < 8 && initial_world(w, d));
        }
        w
    }
}

} // verus!
