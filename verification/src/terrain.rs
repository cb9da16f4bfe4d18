use vstd::prelude::*;

use crate::components::TerrainGeneration;
use crate::item::{BlockId, BlockPos};

verus! {

/// Half-width of the area where creatures spawn around the origin.
pub const WORLD_RADIUS: i32 = 16;
/// Half-width of the generated flat world, in blocks.
pub const FLAT_WORLD_RADIUS: i32 = 64;
/// Height of the grass surface of the flat world.
pub const FLAT_SURFACE_Z: i32 = 4;
pub const GRASS_PLANE_Z: i32 = FLAT_SURFACE_Z;

/// Blocks generated per column of the flat world (from height 0 up to the
/// surface).
pub const FLAT_COLUMN_HEIGHT: i32 = FLAT_SURFACE_Z + 1;
/// Columns along one side of the flat world.
pub const FLAT_WORLD_SIDE: i32 = 2 * FLAT_WORLD_RADIUS;

/// The debug worlds the game can generate.
#[derive(Debug, Clone, Copy, PartialEq, Eq, Structural)]
pub enum DebugWorldKind {
    Flat,
}

/// The debug world that is being played.
#[derive(Debug, Clone, Copy)]
pub struct ActiveDebugWorld(pub DebugWorldKind);

/// Height of the terrain surface at column (`x`, `y`): in the flat world the
/// same everywhere.
pub fn terrain_surface_z(x: i32, y: i32, world: DebugWorldKind, seed: u32) -> (r: i32)
    ensures
        world == DebugWorldKind::Flat ==> r == FLAT_SURFACE_Z,
{
    match world {
        DebugWorldKind::Flat => FLAT_SURFACE_Z,
    }
}

/// The block at height `z` of a flat-world column: grass on the surface, three
/// layers of dirt below it, stone underneath.
pub open spec fn flat_layer(z: int, grass: BlockId, dirt: BlockId, stone: BlockId) -> BlockId {
    if z == FLAT_SURFACE_Z {
        grass
    } else if z >= FLAT_SURFACE_Z - 3 {
        dirt
    } else {
        stone
    }
}

/// Number of blocks the flat world places.
pub open spec fn flat_world_len() -> int {
    FLAT_WORLD_SIDE * FLAT_WORLD_SIDE * FLAT_COLUMN_HEIGHT
}

/// The `i`-th block that flat-world generation places: columns in order of
/// `x`, then `y`, each from height 0 upwards.
pub open spec fn flat_world_entry(i: int, grass: BlockId, dirt: BlockId, stone: BlockId) -> (
    BlockPos,
    BlockId,
) {
    let column = i / (FLAT_COLUMN_HEIGHT as int);
    let z = i % (FLAT_COLUMN_HEIGHT as int);
    let x = column / (FLAT_WORLD_SIDE as int) - FLAT_WORLD_RADIUS;
    let y = column % (FLAT_WORLD_SIDE as int) - FLAT_WORLD_RADIUS;
    (BlockPos { x: x as i32, y: y as i32, z: z as i32 }, flat_layer(z, grass, dirt, stone))
}

proof fn lemma_flat_entry_at(x: int, y: int, z: int, grass: BlockId, dirt: BlockId, stone: BlockId)
    requires
        -FLAT_WORLD_RADIUS <= x < FLAT_WORLD_RADIUS,
        -FLAT_WORLD_RADIUS <= y < FLAT_WORLD_RADIUS,
        0 <= z < FLAT_COLUMN_HEIGHT,
    ensures
        flat_world_entry(
            ((x + FLAT_WORLD_RADIUS) * FLAT_WORLD_SIDE + (y + FLAT_WORLD_RADIUS)) * FLAT_COLUMN_HEIGHT
                + z,
            grass,
            dirt,
            stone,
        ) == (BlockPos { x: x as i32, y: y as i32, z: z as i32 }, flat_layer(z, grass, dirt, stone)),
{
    let column = (x + FLAT_WORLD_RADIUS) * FLAT_WORLD_SIDE + (y + FLAT_WORLD_RADIUS);
    let i = column * FLAT_COLUMN_HEIGHT + z;
    vstd::arithmetic::div_mod::lemma_fundamental_div_mod_converse(
        i,
        FLAT_COLUMN_HEIGHT as int,
        column,
        z,
    );
    vstd::arithmetic::div_mod::lemma_fundamental_div_mod_converse(
        column,
        FLAT_WORLD_SIDE as int,
        x + FLAT_WORLD_RADIUS,
        y + FLAT_WORLD_RADIUS,
    );
}

/// The block placements of the flat debug world: every column of the square
/// from -64 to 63 on both axes, from height 0 up to the grass surface at 4, in
/// the order `flat_world_entry` gives.
pub fn generate_flat_world(grass: BlockId, dirt: BlockId, stone: BlockId) -> (r: Vec<
    (BlockPos, BlockId),
>)
    ensures
        r@.len() == flat_world_len(),
        forall|i: int| 0 <= i < r@.len() ==> #[trigger] r@[i] == flat_world_entry(i, grass, dirt, stone),
{
    let mut out: Vec<(BlockPos, BlockId)> = Vec::new();
    let mut x: i32 = -FLAT_WORLD_RADIUS;
    while x < FLAT_WORLD_RADIUS
        invariant
            -FLAT_WORLD_RADIUS <= x <= FLAT_WORLD_RADIUS,
            out@.len() == (x + FLAT_WORLD_RADIUS) * FLAT_WORLD_SIDE * FLAT_COLUMN_HEIGHT,
            forall|i: int| 0 <= i < out@.len() ==> #[trigger] out@[i] == flat_world_entry(i, grass, dirt, stone),
        decreases FLAT_WORLD_RADIUS - x,
    {
        let mut y: i32 = -FLAT_WORLD_RADIUS;
        while y < FLAT_WORLD_RADIUS
            invariant
                -FLAT_WORLD_RADIUS <= x < FLAT_WORLD_RADIUS,
                -FLAT_WORLD_RADIUS <= y <= FLAT_WORLD_RADIUS,
                out@.len() == ((x + FLAT_WORLD_RADIUS) * FLAT_WORLD_SIDE + (y + FLAT_WORLD_RADIUS))
                    * FLAT_COLUMN_HEIGHT,
                forall|i: int| 0 <= i < out@.len() ==> #[trigger] out@[i] == flat_world_entry(i, grass, dirt, stone),
            decreases FLAT_WORLD_RADIUS - y,
        {
            let mut z: i32 = 0;
            while z <= FLAT_SURFACE_Z
                invariant
                    -FLAT_WORLD_RADIUS <= x < FLAT_WORLD_RADIUS,
                    -FLAT_WORLD_RADIUS <= y < FLAT_WORLD_RADIUS,
                    0 <= z <= FLAT_COLUMN_HEIGHT,
                    out@.len() == ((x + FLAT_WORLD_RADIUS) * FLAT_WORLD_SIDE + (y + FLAT_WORLD_RADIUS))
                        * FLAT_COLUMN_HEIGHT + z,
                    forall|i: int| 0 <= i < out@.len() ==> #[trigger] out@[i] == flat_world_entry(i, grass, dirt, stone),
                decreases FLAT_COLUMN_HEIGHT - z,
            {
                let block = if z == FLAT_SURFACE_Z {
                    grass
                } else if z >= FLAT_SURFACE_Z - 3 {
                    dirt
                } else {
                    stone
                };
                proof {
                    lemma_flat_entry_at(x as int, y as int, z as int, grass, dirt, stone);
                }
                out.push((BlockPos::new(x, y, z), block));
                z = z + 1;
            }
            proof {
                let a = (x + FLAT_WORLD_RADIUS) as int;
                let b = (y + FLAT_WORLD_RADIUS) as int;
                assert((a * 128 + b) * 5 + 5 == (a * 128 + (b + 1)) * 5) by (nonlinear_arith);
            }
            y = y + 1;
        }
        proof {
            let a = (x + FLAT_WORLD_RADIUS) as int;
            assert((a * 128 + 128) * 5 == (a + 1) * 128 * 5) by (nonlinear_arith);
        }
        x = x + 1;
    }
    out
}

/// Runs the one-shot terrain generation: once `progress` is complete nothing
/// more is generated; otherwise the placements of the active debug world are
/// returned and the generation is marked complete.
pub fn run_terrain_generation(
    progress: &mut TerrainGeneration,
    world: DebugWorldKind,
    grass: BlockId,
    dirt: BlockId,
    stone: BlockId,
) -> (r: Option<Vec<(BlockPos, BlockId)>>)
    ensures
        final(progress).complete,
        old(progress).complete ==> r is None,
        !old(progress).complete ==> (r matches Some(blocks) && blocks@.len() == flat_world_len() && (
        forall|i: int| 0 <= i < blocks@.len() ==> #[trigger] blocks@[i] == flat_world_entry(i, grass, dirt, stone))),
{
    if progress.complete {
        return None;
    }
    let blocks = match world {
        DebugWorldKind::Flat => generate_flat_world(grass, dirt, stone),
    };
    progress.complete = true;
    Some(blocks)
}

/// The generated flat world agrees with the surface height that spawning
/// reads: every placed block lies within the world's square, between height 0
/// and `terrain_surface_z`, and (for distinct block types) grass is placed
/// exactly at that surface height.
pub proof fn law_flat_world_matches_surface(
    i: int,
    grass: BlockId,
    dirt: BlockId,
    stone: BlockId,
)
    requires
        0 <= i < flat_world_len(),
        grass != dirt,
        grass != stone,
    ensures
        ({
            let (pos, block) = flat_world_entry(i, grass, dirt, stone);
            &&& -FLAT_WORLD_RADIUS <= pos.x < FLAT_WORLD_RADIUS
            &&& -FLAT_WORLD_RADIUS <= pos.y < FLAT_WORLD_RADIUS
            &&& 0 <= pos.z <= FLAT_SURFACE_Z
            &&& (block == grass <==> pos.z == FLAT_SURFACE_Z)
        }),
{
    let h = FLAT_COLUMN_HEIGHT as int;
    let w = FLAT_WORLD_SIDE as int;
    vstd::arithmetic::div_mod::lemma_div_pos_is_pos(i, h);
    vstd::arithmetic::div_mod::lemma_mod_bound(i, h);
    let column = i / h;
    vstd::arithmetic::div_mod::lemma_div_is_ordered(i, flat_world_len() - 1, h);
    assert((flat_world_len() - 1) / h == w * w - 1) by {
        vstd::arithmetic::div_mod::lemma_fundamental_div_mod_converse(
            flat_world_len() - 1,
            h,
            w * w - 1,
            h - 1,
        );
    }
    vstd::arithmetic::div_mod::lemma_div_pos_is_pos(column, w);
    vstd::arithmetic::div_mod::lemma_mod_bound(column, w);
    vstd::arithmetic::div_mod::lemma_div_is_ordered(column, w * w - 1, w);
    assert((w * w - 1) / w == w - 1) by {
        vstd::arithmetic::div_mod::lemma_fundamental_div_mod_converse(w * w - 1, w, w - 1, w - 1);
    }
}

} // verus!
