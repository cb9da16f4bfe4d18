use opencraft::chunks::ChunkPos;
use opencraft::item::BlockPos;
use opencraft::mesh_cache::{
    should_cull_face, take_rebuild_batch, ChunkMeshCache, RebuiltChunk,
    MAX_CHUNK_REBUILDS_PER_FRAME,
};

fn chunk(x: i32, y: i32, z: i32) -> ChunkPos {
    ChunkPos { x, y, z }
}

fn sorted(mut chunks: Vec<ChunkPos>) -> Vec<(i32, i32, i32)> {
    let mut out: Vec<(i32, i32, i32)> = chunks.drain(..).map(|c| (c.x, c.y, c.z)).collect();
    out.sort();
    out
}

#[test]
fn solid_opaque_neighbour_hides_face() {
    assert!(should_cull_face(true, false, false));
    assert!(!should_cull_face(false, false, false));
    assert!(!should_cull_face(true, true, false));
    assert!(!should_cull_face(true, false, true));
}

#[test]
fn rebuild_batch_keeps_nearest_within_limit() {
    let candidates: Vec<ChunkPos> = (0..12).map(|i| chunk(i, 0, 0)).collect();
    let batch = take_rebuild_batch(candidates.clone(), MAX_CHUNK_REBUILDS_PER_FRAME);
    assert_eq!(batch.len(), 8);
    assert_eq!(batch[7], chunk(7, 0, 0));
    let all = take_rebuild_batch(candidates, usize::MAX);
    assert_eq!(all.len(), 12);
}

#[test]
fn new_cache_is_clean() {
    let cache = ChunkMeshCache::default();
    assert_eq!(cache.generation(), 0);
    assert!(!cache.has_dirty_chunks());
    assert!(cache.meshed_list().is_empty());
}

#[test]
fn marking_a_chunk_twice_queues_it_once() {
    let mut cache = ChunkMeshCache::new();
    cache.mark_dirty(chunk(1, 2, 3));
    cache.mark_dirty(chunk(1, 2, 3));
    assert!(cache.has_dirty_chunks());
    assert_eq!(sorted(cache.dirty_list()), vec![(1, 2, 3)]);
}

#[test]
fn block_at_chunk_corner_dirties_eight_chunks() {
    let mut cache = ChunkMeshCache::new();
    cache.mark_dirty_neighbors(BlockPos::new(0, 0, 0), 16);
    let dirty = sorted(cache.dirty_list());
    assert_eq!(dirty.len(), 8);
    assert_eq!(dirty[0], (-1, -1, -1));
    assert_eq!(dirty[7], (0, 0, 0));
}

#[test]
fn block_inside_chunk_dirties_only_its_chunk() {
    let mut cache = ChunkMeshCache::new();
    cache.mark_dirty_neighbors(BlockPos::new(8, 8, 8), 16);
    assert_eq!(sorted(cache.dirty_list()), vec![(0, 0, 0)]);
}

#[test]
fn rebuild_clears_dirty_and_moves_generation() {
    let mut cache = ChunkMeshCache::new();
    cache.mark_dirty(chunk(0, 0, 0));
    cache.mark_dirty(chunk(1, 0, 0));
    let count = cache.rebuild(&vec![RebuiltChunk { chunk: chunk(0, 0, 0), empty: false }], &vec![]);
    assert_eq!(count, 1);
    assert_eq!(cache.generation(), 1);
    assert_eq!(sorted(cache.dirty_list()), vec![(1, 0, 0)]);
    assert_eq!(sorted(cache.meshed_list()), vec![(0, 0, 0)]);
}

#[test]
fn empty_mesh_of_unmeshed_chunk_keeps_generation() {
    let mut cache = ChunkMeshCache::new();
    cache.mark_dirty(chunk(2, 0, 0));
    cache.rebuild(&vec![RebuiltChunk { chunk: chunk(2, 0, 0), empty: true }], &vec![]);
    assert_eq!(cache.generation(), 0);
    assert!(!cache.has_dirty_chunks());
}

#[test]
fn empty_mesh_drops_stored_mesh() {
    let mut cache = ChunkMeshCache::new();
    cache.rebuild(&vec![RebuiltChunk { chunk: chunk(0, 0, 0), empty: false }], &vec![]);
    cache.rebuild(&vec![RebuiltChunk { chunk: chunk(0, 0, 0), empty: true }], &vec![]);
    assert_eq!(cache.generation(), 2);
    assert!(cache.meshed_list().is_empty());
}

#[test]
fn out_of_range_chunks_lose_meshes() {
    let mut cache = ChunkMeshCache::new();
    cache.rebuild(
        &vec![
            RebuiltChunk { chunk: chunk(0, 0, 0), empty: false },
            RebuiltChunk { chunk: chunk(9, 0, 0), empty: false },
        ],
        &vec![],
    );
    assert_eq!(cache.generation(), 1);
    cache.rebuild(&vec![], &vec![chunk(9, 0, 0), chunk(20, 0, 0)]);
    assert_eq!(cache.generation(), 2);
    assert_eq!(sorted(cache.meshed_list()), vec![(0, 0, 0)]);
    cache.rebuild(&vec![], &vec![chunk(20, 0, 0)]);
    assert_eq!(cache.generation(), 2);
}

#[test]
fn merged_buffers_rebuild_only_after_generation_moves() {
    let mut cache = ChunkMeshCache::new();
    assert!(!cache.sync_merged_generation());
    cache.rebuild(&vec![RebuiltChunk { chunk: chunk(0, 0, 0), empty: false }], &vec![]);
    assert!(cache.sync_merged_generation());
    assert!(!cache.sync_merged_generation());
}
