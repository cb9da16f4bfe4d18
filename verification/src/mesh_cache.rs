use vstd::prelude::*;

use crate::chunks::{chunk_near, chunks_near_block, radius_fits, ChunkPos};
use crate::item::BlockPos;

verus! {

/// At most this many chunks are remeshed in one frame under a near budget.
pub const MAX_CHUNK_REBUILDS_PER_FRAME: usize = 8;

/// The set of chunks listed in `s`.
pub open spec fn listed(s: Seq<ChunkPos>) -> Set<ChunkPos> {
    Set::new(|c: ChunkPos| s.contains(c))
}

/// Whether the face of a solid block towards a neighbour is hidden: only a
/// solid neighbour hides it, and never when either block is drawn as cutout
/// (leaves, glass), since the face shows through.
pub fn should_cull_face(neighbor_solid: bool, self_cutout: bool, neighbor_cutout: bool) -> (r: bool)
    ensures
        r == (neighbor_solid && !self_cutout && !neighbor_cutout),
{
    if !neighbor_solid {
        return false;
    }
    if self_cutout || neighbor_cutout {
        return false;
    }
    true
}

/// The chunks to remesh this frame: the first `max_chunks` of the dirty
/// chunks in budget, which come nearest first.
pub fn take_rebuild_batch(mut candidates: Vec<ChunkPos>, max_chunks: usize) -> (r: Vec<ChunkPos>)
    ensures
        r@ == candidates@.take(
            if candidates@.len() < max_chunks {
                candidates@.len() as int
            } else {
                max_chunks as int
            },
        ),
{
    if max_chunks < candidates.len() {
        candidates.truncate(max_chunks);
    }
    candidates
}

fn list_contains(v: &Vec<ChunkPos>, c: ChunkPos) -> (r: bool)
    ensures
        r == v@.contains(c),
{
    let mut i: usize = 0;
    while i < v.len()
        invariant
            i <= v@.len(),
            forall|k: int| 0 <= k < i ==> v@[k] != c,
        decreases v.len() - i,
    {
        if v[i] == c {
            assert(v@[i as int] == c);
            return true;
        }
        i = i + 1;
    }
    false
}

fn list_insert(v: &mut Vec<ChunkPos>, c: ChunkPos)
    ensures
        listed(final(v)@) == listed(old(v)@).insert(c),
{
    if !list_contains(v, c) {
        v.push(c);
        proof {
            assert forall|x: ChunkPos| #[trigger] final(v)@.contains(x) == listed(old(v)@).insert(c).contains(x) by {
                if old(v)@.contains(x) {
                    let k = choose|k: int| 0 <= k < old(v)@.len() && old(v)@[k] == x;
                    assert(final(v)@[k] == x);
                }
                if final(v)@.contains(x) && x != c {
                    let k = choose|k: int| 0 <= k < final(v)@.len() && final(v)@[k] == x;
                    assert(k < old(v)@.len());
                    assert(old(v)@[k] == x);
                }
                if x == c {
                    assert(final(v)@[final(v)@.len() - 1] == c);
                }
            }
            assert(listed(final(v)@) =~= listed(old(v)@).insert(c));
        }
    } else {
        proof {
            assert(listed(final(v)@) =~= listed(old(v)@).insert(c));
        }
    }
}

fn list_remove(v: &mut Vec<ChunkPos>, c: ChunkPos) -> (was: bool)
    ensures
        listed(final(v)@) == listed(old(v)@).remove(c),
        was == old(v)@.contains(c),
{
    let ghost old_v = v@;
    let mut kept: Vec<ChunkPos> = Vec::new();
    let mut was = false;
    let mut i: usize = 0;
    while i < v.len()
        invariant
            v@ == old_v,
            i <= v@.len(),
            forall|x: ChunkPos|
                #[trigger] kept@.contains(x) <==> (x != c && old_v.subrange(0, i as int).contains(x)),
            was == old_v.subrange(0, i as int).contains(c),
        decreases v.len() - i,
    {
        let e = v[i];
        let ghost before = kept@;
        if e == c {
            was = true;
        } else {
            kept.push(e);
        }
        proof {
            let pre = old_v.subrange(0, i as int);
            let post = old_v.subrange(0, i as int + 1);
            assert(post == pre.push(e));
            assert forall|x: ChunkPos| post.contains(x) <==> (pre.contains(x) || x == e) by {
                if post.contains(x) && x != e {
                    let k = choose|k: int| 0 <= k < post.len() && post[k] == x;
                    assert(k < pre.len());
                    assert(pre[k] == x);
                }
                if pre.contains(x) {
                    let k = choose|k: int| 0 <= k < pre.len() && pre[k] == x;
                    assert(post[k] == x);
                }
                if x == e {
                    assert(post[pre.len() as int] == e);
                }
            }
            assert forall|x: ChunkPos|
                #[trigger] kept@.contains(x) <==> (x != c && post.contains(x)) by {
                if e != c {
                    if kept@.contains(x) && x != e {
                        let k = choose|k: int| 0 <= k < kept@.len() && kept@[k] == x;
                        assert(k < before.len());
                        assert(before[k] == x);
                    }
                    if before.contains(x) {
                        let k = choose|k: int| 0 <= k < before.len() && before[k] == x;
                        assert(kept@[k] == x);
                    }
                    if x == e {
                        assert(kept@[before.len() as int] == e);
                    }
                }
            }
        }
        i = i + 1;
    }
    proof {
        assert(old_v.subrange(0, old_v.len() as int) == old_v);
        assert(listed(kept@) =~= listed(old_v).remove(c));
    }
    *v = kept;
    was
}

/// A chunk that the mesher went over, and whether its mesh came out empty.
#[derive(Debug, Clone, Copy, PartialEq, Eq, Structural)]
pub struct RebuiltChunk {
    pub chunk: ChunkPos,
    pub empty: bool,
}

/// The chunks holding a mesh after the results `rebuilt` are stored in
/// turn: an empty mesh drops the chunk, any other stores it.
pub open spec fn meshed_after(meshed: Set<ChunkPos>, rebuilt: Seq<RebuiltChunk>) -> Set<ChunkPos>
    decreases rebuilt.len(),
{
    if rebuilt.len() == 0 {
        meshed
    } else {
        let prev = meshed_after(meshed, rebuilt.drop_last());
        let last = rebuilt.last();
        if last.empty {
            prev.remove(last.chunk)
        } else {
            prev.insert(last.chunk)
        }
    }
}

/// Whether storing the results `rebuilt` in turn changes the meshes: a
/// non-empty mesh always does (it is new or replaces one), an empty one
/// only where it drops a stored mesh.
pub open spec fn rebuild_changes(meshed: Set<ChunkPos>, rebuilt: Seq<RebuiltChunk>) -> bool
    decreases rebuilt.len(),
{
    if rebuilt.len() == 0 {
        false
    } else {
        let prev = meshed_after(meshed, rebuilt.drop_last());
        let last = rebuilt.last();
        rebuild_changes(meshed, rebuilt.drop_last()) || !last.empty || prev.contains(last.chunk)
    }
}

/// Whether `c` is among the chunks of `rebuilt`.
pub open spec fn was_rebuilt(rebuilt: Seq<RebuiltChunk>, c: ChunkPos) -> bool {
    exists|k: int| 0 <= k < rebuilt.len() && (#[trigger] rebuilt[k]).chunk == c
}

/// Whether dropping the chunks of `far` removes any stored mesh.
pub open spec fn evicts(meshed: Set<ChunkPos>, far: Seq<ChunkPos>) -> bool {
    exists|c: ChunkPos| far.contains(c) && #[trigger] meshed.contains(c)
}

/// Whether a rebuild with results `rebuilt` and out-of-range chunks `far`
/// changes the meshes, and so moves the generation.
pub open spec fn rebuild_moves_generation(
    meshed: Set<ChunkPos>,
    rebuilt: Seq<RebuiltChunk>,
    far: Seq<ChunkPos>,
) -> bool {
    rebuild_changes(meshed, rebuilt) || evicts(meshed_after(meshed, rebuilt), far)
}

fn list_copy(v: &Vec<ChunkPos>) -> (r: Vec<ChunkPos>)
    ensures
        r@ == v@,
{
    let mut r: Vec<ChunkPos> = Vec::new();
    let mut i: usize = 0;
    while i < v.len()
        invariant
            i <= v@.len(),
            r@ == v@.take(i as int),
        decreases v.len() - i,
    {
        r.push(v[i]);
        proof {
            assert(v@.take(i as int + 1) == v@.take(i as int).push(v@[i as int]));
        }
        i = i + 1;
    }
    assert(v@.take(v@.len() as int) == v@);
    r
}

/// The bookkeeping of the chunk mesh cache: which chunks hold a mesh, which
/// wait to be remeshed, and a generation that moves whenever the set of
/// meshes changes, so that the merged draw buffers are rebuilt only then.
/// The meshes themselves stay with the renderer.
pub struct ChunkMeshCache {
    meshed: Vec<ChunkPos>,
    dirty: Vec<ChunkPos>,
    generation: u64,
    merged_generation: u64,
}

impl Default for ChunkMeshCache {
    fn default() -> (r: Self)
        ensures
            r.meshed_chunks() == Set::<ChunkPos>::empty(),
            r.dirty_chunks() == Set::<ChunkPos>::empty(),
            r.current_generation() == 0,
            r.merged_from() == 0,
    {
        ChunkMeshCache::new()
    }
}

impl ChunkMeshCache {
    /// The chunks that hold a non-empty mesh.
    pub closed spec fn meshed_chunks(&self) -> Set<ChunkPos> {
        listed(self.meshed@)
    }

    /// The chunks waiting to be remeshed.
    pub closed spec fn dirty_chunks(&self) -> Set<ChunkPos> {
        listed(self.dirty@)
    }

    /// The generation of the set of meshes.
    pub closed spec fn current_generation(&self) -> u64 {
        self.generation
    }

    /// The generation that the merged draw buffers were built from.
    pub closed spec fn merged_from(&self) -> u64 {
        self.merged_generation
    }

    /// An empty cache at generation 0.
    pub fn new() -> (r: Self)
        ensures
            r.meshed_chunks() == Set::<ChunkPos>::empty(),
            r.dirty_chunks() == Set::<ChunkPos>::empty(),
            r.current_generation() == 0,
            r.merged_from() == 0,
    {
        let r = ChunkMeshCache { meshed: Vec::new(), dirty: Vec::new(), generation: 0, merged_generation: 0 };
        assert(r.meshed_chunks() =~= Set::<ChunkPos>::empty());
        assert(r.dirty_chunks() =~= Set::<ChunkPos>::empty());
        r
    }

    /// The generation of the set of meshes.
    pub fn generation(&self) -> (r: u64)
        ensures
            r == self.current_generation(),
    {
        self.generation
    }

    /// Queues `chunk` for remeshing.
    pub fn mark_dirty(&mut self, chunk: ChunkPos)
        ensures
            final(self).dirty_chunks() == old(self).dirty_chunks().insert(chunk),
            final(self).meshed_chunks() == old(self).meshed_chunks(),
            final(self).current_generation() == old(self).current_generation(),
            final(self).merged_from() == old(self).merged_from(),
    {
        list_insert(&mut self.dirty, chunk);
    }

    /// Queues for remeshing every chunk whose faces a change of the block at
    /// `position` can alter (see `chunks_near_block`).
    pub fn mark_dirty_neighbors(&mut self, position: BlockPos, chunk_size: i32)
        requires
            chunk_size > 0,
            radius_fits(position),
        ensures
            forall|c: ChunkPos|
                #[trigger] final(self).dirty_chunks().contains(c) <==> (old(self).dirty_chunks().contains(c)
                    || chunk_near(c, position, chunk_size as int)),
            final(self).meshed_chunks() == old(self).meshed_chunks(),
            final(self).current_generation() == old(self).current_generation(),
            final(self).merged_from() == old(self).merged_from(),
    {
        let chunks = chunks_near_block(position, chunk_size);
        let mut i: usize = 0;
        while i < chunks.len()
            invariant
                i <= chunks@.len(),
                forall|k: int| 0 <= k < chunks@.len() ==> chunk_near(#[trigger] chunks@[k], position, chunk_size as int),
                forall|c: ChunkPos| chunk_near(c, position, chunk_size as int) ==> chunks@.contains(c),
                forall|c: ChunkPos|
                    #[trigger] self.dirty_chunks().contains(c) <==> (old(self).dirty_chunks().contains(c)
                        || exists|k: int| 0 <= k < i && chunks@[k] == c),
                self.meshed_chunks() == old(self).meshed_chunks(),
                self.current_generation() == old(self).current_generation(),
                self.merged_from() == old(self).merged_from(),
            decreases chunks.len() - i,
        {
            let c = chunks[i];
            let ghost before = self.dirty_chunks();
            self.mark_dirty(c);
            proof {
                assert forall|x: ChunkPos|
                    #[trigger] self.dirty_chunks().contains(x) <==> (old(self).dirty_chunks().contains(x)
                        || exists|k: int| 0 <= k < i + 1 && chunks@[k] == x) by {
                    if x == c {
                        assert(chunks@[i as int] == x);
                    } else if exists|k: int| 0 <= k < i + 1 && chunks@[k] == x {
                        let k = choose|k: int| 0 <= k < i + 1 && chunks@[k] == x;
                        assert(k < i);
                        assert(before.contains(x));
                    }
                }
            }
            i = i + 1;
        }
        proof {
            assert forall|c: ChunkPos|
                #[trigger] self.dirty_chunks().contains(c) <==> (old(self).dirty_chunks().contains(c)
                    || chunk_near(c, position, chunk_size as int)) by {
                if chunk_near(c, position, chunk_size as int) {
                    assert(chunks@.contains(c));
                    let k = choose|k: int| 0 <= k < chunks@.len() && chunks@[k] == c;
                    assert(0 <= k < i && chunks@[k] == c);
                }
                if exists|k: int| 0 <= k < i && chunks@[k] == c {
                    let k = choose|k: int| 0 <= k < i && chunks@[k] == c;
                    assert(chunk_near(chunks@[k], position, chunk_size as int));
                }
            }
        }
    }

    /// The chunks waiting to be remeshed, for the renderer to pick the ones
    /// within its budget.
    pub fn dirty_list(&self) -> (r: Vec<ChunkPos>)
        ensures
            listed(r@) == self.dirty_chunks(),
    {
        list_copy(&self.dirty)
    }

    /// The chunks that hold a mesh, for the renderer to find the ones out of
    /// range.
    pub fn meshed_list(&self) -> (r: Vec<ChunkPos>)
        ensures
            listed(r@) == self.meshed_chunks(),
    {
        list_copy(&self.meshed)
    }

    /// Stores the outcome of remeshing: each chunk of `rebuilt` is no longer
    /// dirty and holds a mesh exactly when its new mesh is not empty; then
    /// the chunks of `out_of_range` lose their meshes. The generation moves
    /// by one when the meshes changed. Returns how many chunks were remeshed.
    pub fn rebuild(&mut self, rebuilt: &Vec<RebuiltChunk>, out_of_range: &Vec<ChunkPos>) -> (count: usize)
        requires
            rebuild_moves_generation(old(self).meshed_chunks(), rebuilt@, out_of_range@)
                ==> old(self).current_generation() < u64::MAX,
        ensures
            count == rebuilt@.len(),
            final(self).meshed_chunks() == meshed_after(old(self).meshed_chunks(), rebuilt@).difference(
                listed(out_of_range@),
            ),
            forall|c: ChunkPos|
                #[trigger] final(self).dirty_chunks().contains(c) <==> (old(self).dirty_chunks().contains(c)
                    && !was_rebuilt(rebuilt@, c)),
            final(self).current_generation() == if rebuild_moves_generation(
                old(self).meshed_chunks(),
                rebuilt@,
                out_of_range@,
            ) {
                old(self).current_generation() + 1
            } else {
                old(self).current_generation() as int
            },
            final(self).merged_from() == old(self).merged_from(),
    {
        let ghost start = self.meshed_chunks();
        let mut changed = false;
        let mut i: usize = 0;
        while i < rebuilt.len()
            invariant
                i <= rebuilt@.len(),
                self.meshed_chunks() == meshed_after(start, rebuilt@.take(i as int)),
                changed == rebuild_changes(start, rebuilt@.take(i as int)),
                forall|c: ChunkPos|
                    #[trigger] self.dirty_chunks().contains(c) <==> (old(self).dirty_chunks().contains(c)
                        && !was_rebuilt(rebuilt@.take(i as int), c)),
                self.generation == old(self).generation,
                self.merged_generation == old(self).merged_generation,
            decreases rebuilt.len() - i,
        {
            let r = rebuilt[i];
            let ghost prefix = rebuilt@.take(i as int);
            let ghost next = rebuilt@.take(i as int + 1);
            let ghost dirty_before = self.dirty_chunks();
            list_remove(&mut self.dirty, r.chunk);
            if r.empty {
                let was = list_remove(&mut self.meshed, r.chunk);
                changed = changed || was;
            } else {
                list_insert(&mut self.meshed, r.chunk);
                changed = true;
            }
            proof {
                assert(next.drop_last() == prefix);
                assert(next.last() == r);
                assert forall|c: ChunkPos|
                    #[trigger] self.dirty_chunks().contains(c) <==> (old(self).dirty_chunks().contains(c)
                        && !was_rebuilt(next, c)) by {
                    if was_rebuilt(prefix, c) {
                        let k = choose|k: int| 0 <= k < prefix.len() && (#[trigger] prefix[k]).chunk == c;
                        assert(next[k] == prefix[k]);
                    }
                    if was_rebuilt(next, c) && c != r.chunk {
                        let k = choose|k: int| 0 <= k < next.len() && (#[trigger] next[k]).chunk == c;
                        assert(k < prefix.len());
                        assert(prefix[k] == next[k]);
                    }
                    if c == r.chunk {
                        assert(next[i as int].chunk == c);
                    }
                }
            }
            i = i + 1;
        }
        proof {
            assert(rebuilt@.take(rebuilt@.len() as int) == rebuilt@);
        }
        let ghost mid = self.meshed_chunks();
        let ghost dirty_mid = self.dirty_chunks();
        let mut evicted = false;
        let mut j: usize = 0;
        while j < out_of_range.len()
            invariant
                j <= out_of_range@.len(),
                mid == meshed_after(start, rebuilt@),
                self.meshed_chunks() == mid.difference(listed(out_of_range@.take(j as int))),
                evicted == evicts(mid, out_of_range@.take(j as int)),
                self.dirty_chunks() == dirty_mid,
                forall|c: ChunkPos|
                    #[trigger] dirty_mid.contains(c) <==> (old(self).dirty_chunks().contains(c)
                        && !was_rebuilt(rebuilt@, c)),
                changed == rebuild_changes(start, rebuilt@),
                self.generation == old(self).generation,
                self.merged_generation == old(self).merged_generation,
            decreases out_of_range.len() - j,
        {
            let c = out_of_range[j];
            let ghost prefix = out_of_range@.take(j as int);
            let ghost next = out_of_range@.take(j as int + 1);
            let ghost meshed_before = self.meshed_chunks();
            let was = list_remove(&mut self.meshed, c);
            evicted = evicted || was;
            proof {
                assert(next == prefix.push(c));
                assert forall|x: ChunkPos| next.contains(x) <==> (prefix.contains(x) || x == c) by {
                    if next.contains(x) && x != c {
                        let k = choose|k: int| 0 <= k < next.len() && next[k] == x;
                        assert(k < prefix.len());
                        assert(prefix[k] == x);
                    }
                    if prefix.contains(x) {
                        let k = choose|k: int| 0 <= k < prefix.len() && prefix[k] == x;
                        assert(next[k] == x);
                    }
                    if x == c {
                        assert(next[j as int] == c);
                    }
                }
                assert(self.meshed_chunks() =~= mid.difference(listed(next)));
                if was {
                    assert(meshed_before.contains(c));
                    assert(next[j as int] == c);
                    assert(next.contains(c) && mid.contains(c));
                }
                if evicts(mid, next) {
                    let x = choose|x: ChunkPos| next.contains(x) && #[trigger] mid.contains(x);
                    if x != c {
                        assert(prefix.contains(x));
                    }
                }
            }
            j = j + 1;
        }
        proof {
            assert(out_of_range@.take(out_of_range@.len() as int) == out_of_range@);
        }
        if changed || evicted {
            self.generation = self.generation + 1;
        }
        rebuilt.len()
    }

    /// Whether the merged draw buffers must be built again, which is when
    /// the meshes moved on since they were last built; they count as built
    /// from the current generation afterwards.
    pub fn sync_merged_generation(&mut self) -> (remerge: bool)
        ensures
            remerge == (old(self).merged_from() != old(self).current_generation()),
            final(self).merged_from() == old(self).current_generation(),
            final(self).current_generation() == old(self).current_generation(),
            final(self).meshed_chunks() == old(self).meshed_chunks(),
            final(self).dirty_chunks() == old(self).dirty_chunks(),
    {
        if self.merged_generation != self.generation {
            self.merged_generation = self.generation;
            true
        } else {
            false
        }
    }

    /// Whether any chunk waits to be remeshed.
    pub fn has_dirty_chunks(&self) -> (r: bool)
        ensures
            r == exists|c: ChunkPos| self.dirty_chunks().contains(c),
    {
        let r = self.dirty.len() > 0;
        proof {
            if r {
                assert(self.dirty_chunks().contains(self.dirty@[0]));
            } else {
                assert forall|c: ChunkPos| !self.dirty_chunks().contains(c) by {
                    assert(!self.dirty@.contains(c));
                }
            }
        }
        r
    }
}

} // verus!
