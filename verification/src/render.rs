use vstd::prelude::*;

verus! {

/// Most cubes drawn for one dropped stack.
pub const MAX_STACK_VISUALS: u16 = 4;
/// Particles a broken block emits.
pub const PARTICLES_PER_BREAK: usize = 60;
/// Most particles alive at once.
pub const MAX_PARTICLES: usize = 2560;

/// How many cubes a dropped stack of `count` items is drawn as: one per item,
/// at least one and at most four.
pub fn stack_visual_count(count: u16) -> (r: usize)
    ensures
        r == (if count < 1 {
            1
        } else if count > MAX_STACK_VISUALS {
            MAX_STACK_VISUALS as int
        } else {
            count as int
        }),
{
    let capped = if count < MAX_STACK_VISUALS {
        count
    } else {
        MAX_STACK_VISUALS
    };
    let at_least_one = if capped > 1 {
        capped
    } else {
        1
    };
    at_least_one as usize
}

/// The integer hash that drives particle variation: xor-shifts and two
/// wrapping multiplications.
pub open spec fn hash_of(x: u32) -> u32 {
    let a = x ^ (x >> 16u32);
    let b = a.wrapping_mul(0x7feb352d);
    let c = b ^ (b >> 15u32);
    let d = c.wrapping_mul(0x846ca68b);
    d ^ (d >> 16u32)
}

pub fn hash_u32(x: u32) -> (r: u32)
    ensures
        r == hash_of(x),
{
    let mut x = x;
    x = x ^ (x >> 16u32);
    x = x.wrapping_mul(0x7feb352d);
    x = x ^ (x >> 15u32);
    x = x.wrapping_mul(0x846ca68b);
    x = x ^ (x >> 16u32);
    x
}

/// The seed of the particles of a block broken at (`x`, `y`, `z`): the
/// coordinates' bit patterns, the last two scaled by large odd numbers,
/// xor-ed together.
pub open spec fn break_seed_of(x: i32, y: i32, z: i32) -> u32 {
    (x as u32) ^ (y as u32).wrapping_mul(374761393) ^ (z as u32).wrapping_mul(668265263)
}

pub fn break_particle_seed(x: i32, y: i32, z: i32) -> (r: u32)
    ensures
        r == break_seed_of(x, y, z),
{
    (x as u32) ^ (y as u32).wrapping_mul(374761393) ^ (z as u32).wrapping_mul(668265263)
}

/// The cube face (0 to 5) whose texture the `index`-th particle of a break
/// with seed `seed` shows.
pub fn break_particle_face(seed: u32, index: u32) -> (r: usize)
    requires
        index * 97 <= u32::MAX,
    ensures
        r == hash_of(seed.wrapping_add((index * 97) as u32)) % 6,
        r < 6,
{
    (hash_u32(seed.wrapping_add(index * 97)) % 6) as usize
}

/// How many particles a block break adds when `existing` particles are alive:
/// the full burst, cut short where the particle limit is reached.
pub fn break_particle_count(existing: usize) -> (r: usize)
    ensures
        r == (if existing >= MAX_PARTICLES {
            0
        } else if MAX_PARTICLES - existing < PARTICLES_PER_BREAK {
            (MAX_PARTICLES - existing) as int
        } else {
            PARTICLES_PER_BREAK as int
        }),
{
    let mut alive = existing;
    let mut added: usize = 0;
    while added < PARTICLES_PER_BREAK
        invariant
            added <= PARTICLES_PER_BREAK,
            alive == existing + added,
            added > 0 ==> alive <= MAX_PARTICLES,
            existing < MAX_PARTICLES && added < PARTICLES_PER_BREAK ==> alive <= MAX_PARTICLES,
            existing >= MAX_PARTICLES ==> added == 0,
        decreases PARTICLES_PER_BREAK - added,
    {
        if alive >= MAX_PARTICLES {
            return added;
        }
        alive = alive + 1;
        added = added + 1;
    }
    added
}

/// A shader source: the shared lighting code followed by the shader's own.
pub fn concat_wgsl(shared: &str, main: &str) -> (r: String)
    ensures
        r@ == shared@ + main@,
{
    shared.to_owned().concat(main)
}

} // verus!
