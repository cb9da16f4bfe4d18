use vstd::prelude::*;

use rand::Rng;

use crate::terrain::WORLD_RADIUS;

verus! {

/// Chickens spawned into a fresh world.
pub const CHICKEN_COUNT: i32 = 12;

/// Calls `rand::Rng::gen_range` with the range `lo..hi` on the thread-local
/// generator. rand documents the value as drawn from that half-open range and
/// panics on an empty range; which value comes back is chance.
#[verifier::external_body]
fn random_in_range(lo: i32, hi: i32) -> (r: i32)
    requires
        lo < hi,
    ensures
        lo <= r < hi,
{
    rand::thread_rng().gen_range(lo..hi)
}

/// Chickens are spawned once the world is initialized, and only while there is
/// no chicken yet.
pub fn should_spawn_chickens(world_initialized: bool, chicken_exists: bool) -> (r: bool)
    ensures
        r == (world_initialized && !chicken_exists),
{
    world_initialized && !chicken_exists
}

/// A random block column for a new chicken: at least eight blocks inside the
/// spawn area around the origin on both axes.
pub fn chicken_spawn_column() -> (r: (i32, i32))
    ensures
        -WORLD_RADIUS + 8 <= r.0 < WORLD_RADIUS - 8,
        -WORLD_RADIUS + 8 <= r.1 < WORLD_RADIUS - 8,
{
    let x = random_in_range(-WORLD_RADIUS + 8, WORLD_RADIUS - 8);
    let y = random_in_range(-WORLD_RADIUS + 8, WORLD_RADIUS - 8);
    (x, y)
}

} // verus!
