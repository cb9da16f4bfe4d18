use vstd::prelude::*;

use crate::item::BlockPos;

verus! {

/// Blocks around a changed block whose faces may change with it (connected
/// textures look at neighbours up to this far).
pub const CTM_DIRTY_RADIUS_BLOCKS: i32 = 2;

/// The integer coordinates of a mesh chunk.
#[derive(Debug, Clone, Copy, PartialEq, Eq, Structural)]
pub struct ChunkPos {
    pub x: i32,
    pub y: i32,
    pub z: i32,
}

/// The chunk holding coordinate `b` along one axis (floor division).
pub open spec fn chunk_of(b: int, chunk_size: int) -> int {
    b / chunk_size
}

/// Whether chunk `c` holds any block within the dirty radius of `pos`.
pub open spec fn chunk_near(c: ChunkPos, pos: BlockPos, chunk_size: int) -> bool {
    let r = CTM_DIRTY_RADIUS_BLOCKS as int;
    &&& chunk_of(pos.x - r, chunk_size) <= c.x <= chunk_of(pos.x + r, chunk_size)
    &&& chunk_of(pos.y - r, chunk_size) <= c.y <= chunk_of(pos.y + r, chunk_size)
    &&& chunk_of(pos.z - r, chunk_size) <= c.z <= chunk_of(pos.z + r, chunk_size)
}

/// Lexicographic order of chunk coordinates (x, then y, then z).
pub open spec fn chunk_before(a: ChunkPos, b: ChunkPos) -> bool {
    a.x < b.x || (a.x == b.x && (a.y < b.y || (a.y == b.y && a.z < b.z)))
}

/// Whether chunk `a` comes before the point (`x`, `y`, `z`) in (x, y, z)
/// order.
pub open spec fn before_point(a: ChunkPos, x: int, y: int, z: int) -> bool {
    a.x < x || (a.x == x && (a.y < y || (a.y == y && a.z < z)))
}

/// Whether the dirty radius around `pos` stays within `i32` coordinates.
pub open spec fn radius_fits(pos: BlockPos) -> bool {
    let r = CTM_DIRTY_RADIUS_BLOCKS as int;
    &&& i32::MIN <= pos.x - r && pos.x + r <= i32::MAX
    &&& i32::MIN <= pos.y - r && pos.y + r <= i32::MAX
    &&& i32::MIN <= pos.z - r && pos.z + r <= i32::MAX
}

fn axis_chunk(b: i32, chunk_size: i32) -> (r: i32)
    requires
        chunk_size > 0,
    ensures
        r == chunk_of(b as int, chunk_size as int),
{
    proof {
        lemma_floor_div_bounds(b as int, chunk_size as int);
    }
    match b.checked_div_euclid(chunk_size) {
        Some(c) => c,
        None => 0,
    }
}

/// The chunks whose meshes a change of the block at `pos` can alter: every
/// chunk holding a block within the dirty radius of `pos`, each once, in
/// increasing (x, y, z) order. `chunk_size` is the chunk edge in blocks.
pub fn chunks_near_block(pos: BlockPos, chunk_size: i32) -> (r: Vec<ChunkPos>)
    requires
        chunk_size > 0,
        radius_fits(pos),
    ensures
        forall|k: int| 0 <= k < r@.len() ==> chunk_near(#[trigger] r@[k], pos, chunk_size as int),
        forall|c: ChunkPos| chunk_near(c, pos, chunk_size as int) ==> r@.contains(c),
        forall|k1: int, k2: int|
            0 <= k1 < k2 < r@.len() ==> chunk_before(#[trigger] r@[k1], #[trigger] r@[k2]),
{
    let radius = CTM_DIRTY_RADIUS_BLOCKS;
    let min_x = axis_chunk(pos.x - radius, chunk_size);
    let max_x = axis_chunk(pos.x + radius, chunk_size);
    let min_y = axis_chunk(pos.y - radius, chunk_size);
    let max_y = axis_chunk(pos.y + radius, chunk_size);
    let min_z = axis_chunk(pos.z - radius, chunk_size);
    let max_z = axis_chunk(pos.z + radius, chunk_size);
    let ghost cs = chunk_size as int;
    proof {
        lemma_near_bounds(pos.x as int, cs);
        lemma_near_bounds(pos.y as int, cs);
        lemma_near_bounds(pos.z as int, cs);
    }
    let min_x = min_x as i64;
    let max_x = max_x as i64;
    let min_y = min_y as i64;
    let max_y = max_y as i64;
    let min_z = min_z as i64;
    let max_z = max_z as i64;
    let mut out: Vec<ChunkPos> = Vec::new();
    let mut cx = min_x;
    while cx <= max_x
        invariant
            min_x <= cx,
            cx <= max_x + 1,
            min_x == chunk_of(pos.x - 2, cs),
            max_x == chunk_of(pos.x + 2, cs),
            min_y == chunk_of(pos.y - 2, cs),
            max_y == chunk_of(pos.y + 2, cs),
            min_z == chunk_of(pos.z - 2, cs),
            max_z == chunk_of(pos.z + 2, cs),
            i32::MIN <= min_x && max_x <= i32::MAX,
            i32::MIN <= min_y && max_y <= i32::MAX,
            i32::MIN <= min_z && max_z <= i32::MAX,
            min_x <= max_x + 1,
            min_y <= max_y + 1,
            min_z <= max_z + 1,
            forall|k: int| 0 <= k < out@.len() ==> chunk_near(#[trigger] out@[k], pos, cs),
            forall|k: int| 0 <= k < out@.len() ==> (#[trigger] out@[k]).x < cx,
            forall|c: ChunkPos| chunk_near(c, pos, cs) && c.x < cx ==> out@.contains(c),
            forall|k1: int, k2: int|
                0 <= k1 < k2 < out@.len() ==> chunk_before(#[trigger] out@[k1], #[trigger] out@[k2]),
        decreases max_x + 1 - cx,
    {
        let mut cy = min_y;
        while cy <= max_y
            invariant
                min_x <= cx <= max_x,
                min_y <= cy,
                cy <= max_y + 1,
                min_x == chunk_of(pos.x - 2, cs),
                max_x == chunk_of(pos.x + 2, cs),
                min_y == chunk_of(pos.y - 2, cs),
                max_y == chunk_of(pos.y + 2, cs),
                min_z == chunk_of(pos.z - 2, cs),
                max_z == chunk_of(pos.z + 2, cs),
                i32::MIN <= min_x && max_x <= i32::MAX,
            i32::MIN <= min_y && max_y <= i32::MAX,
            i32::MIN <= min_z && max_z <= i32::MAX,
            min_x <= max_x + 1,
            min_y <= max_y + 1,
            min_z <= max_z + 1,
                forall|k: int| 0 <= k < out@.len() ==> chunk_near(#[trigger] out@[k], pos, cs),
                forall|k: int|
                    0 <= k < out@.len() ==> before_point(#[trigger] out@[k], cx as int, cy as int, i32::MIN as int),
                forall|c: ChunkPos|
                    chunk_near(c, pos, cs) && (c.x < cx || (c.x == cx && c.y < cy)) ==> out@.contains(c),
                forall|k1: int, k2: int|
                    0 <= k1 < k2 < out@.len() ==> chunk_before(#[trigger] out@[k1], #[trigger] out@[k2]),
            decreases max_y + 1 - cy,
        {
            let mut cz = min_z;
            while cz <= max_z
                invariant
                    min_x <= cx <= max_x,
                    min_y <= cy <= max_y,
                    min_z <= cz,
                    cz <= max_z + 1,
                    min_x == chunk_of(pos.x - 2, cs),
                    max_x == chunk_of(pos.x + 2, cs),
                    min_y == chunk_of(pos.y - 2, cs),
                    max_y == chunk_of(pos.y + 2, cs),
                    min_z == chunk_of(pos.z - 2, cs),
                    max_z == chunk_of(pos.z + 2, cs),
                    i32::MIN <= min_x && max_x <= i32::MAX,
            i32::MIN <= min_y && max_y <= i32::MAX,
            i32::MIN <= min_z && max_z <= i32::MAX,
            min_x <= max_x + 1,
            min_y <= max_y + 1,
            min_z <= max_z + 1,
                    forall|k: int| 0 <= k < out@.len() ==> chunk_near(#[trigger] out@[k], pos, cs),
                    forall|k: int|
                        0 <= k < out@.len() ==> before_point(#[trigger] out@[k], cx as int, cy as int, cz as int),
                    forall|c: ChunkPos|
                        chunk_near(c, pos, cs) && (c.x < cx || (c.x == cx && c.y < cy) || (c.x == cx
                            && c.y == cy && c.z < cz)) ==> out@.contains(c),
                    forall|k1: int, k2: int|
                        0 <= k1 < k2 < out@.len() ==> chunk_before(#[trigger] out@[k1], #[trigger] out@[k2]),
                decreases max_z + 1 - cz,
            {
                let chunk = ChunkPos { x: cx as i32, y: cy as i32, z: cz as i32 };
                let ghost before = out@;
                out.push(chunk);
                proof {
                    assert forall|c: ChunkPos|
                        chunk_near(c, pos, cs) && (c.x < cx || (c.x == cx && c.y < cy) || (c.x == cx
                            && c.y == cy && c.z < cz + 1)) implies out@.contains(c) by {
                        if c == chunk {
                            assert(out@[out@.len() - 1] == c);
                        } else {
                            assert(before.contains(c));
                            let k = choose|k: int| 0 <= k < before.len() && before[k] == c;
                            assert(out@[k] == c);
                        }
                    }
                }
                cz = cz + 1;
            }
            cy = cy + 1;
        }
        cx = cx + 1;
    }
    out
}

/// The chunk holding the changed block itself is always among those marked.
pub proof fn law_changed_block_chunk_is_near(pos: BlockPos, chunk_size: int)
    requires
        chunk_size > 0,
    ensures
        chunk_near(
            ChunkPos {
                x: chunk_of(pos.x as int, chunk_size) as i32,
                y: chunk_of(pos.y as int, chunk_size) as i32,
                z: chunk_of(pos.z as int, chunk_size) as i32,
            },
            pos,
            chunk_size,
        ),
{
    lemma_near_bounds(pos.x as int, chunk_size);
    lemma_near_bounds(pos.y as int, chunk_size);
    lemma_near_bounds(pos.z as int, chunk_size);
}

proof fn lemma_floor_div_bounds(b: int, cs: int)
    requires
        cs >= 1,
    ensures
        b >= 0 ==> 0 <= b / cs <= b,
        b < 0 ==> b <= b / cs < 0,
{
    vstd::arithmetic::div_mod::lemma_fundamental_div_mod(b, cs);
    let q = b / cs;
    let r = b % cs;
    vstd::arithmetic::div_mod::lemma_mod_bound(b, cs);
    assert(b >= 0 ==> 0 <= q <= b) by (nonlinear_arith)
        requires
            b == cs * q + r,
            0 <= r < cs,
            cs >= 1,
    ;
    assert(b < 0 ==> b <= q < 0) by (nonlinear_arith)
        requires
            b == cs * q + r,
            0 <= r < cs,
            cs >= 1,
    ;
}

proof fn lemma_near_bounds(b: int, chunk_size: int)
    requires
        chunk_size > 0,
    ensures
        chunk_of(b - 2, chunk_size) <= chunk_of(b, chunk_size) <= chunk_of(b + 2, chunk_size),
        i32::MIN <= b <= i32::MAX ==> i32::MIN <= chunk_of(b, chunk_size) <= i32::MAX,
{
    vstd::arithmetic::div_mod::lemma_div_is_ordered(b - 2, b, chunk_size);
    vstd::arithmetic::div_mod::lemma_div_is_ordered(b, b + 2, chunk_size);
    lemma_floor_div_bounds(b, chunk_size);
}

} // verus!
