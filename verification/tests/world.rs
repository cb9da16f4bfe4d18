use opencraft::chunks::{chunks_near_block, ChunkPos};
use opencraft::components::{TerrainGeneration, WorldItemId, WorldSeed};
use opencraft::drops::{
    merge_dropped_stacks, pickup_claims, plan_item_merges, settle_pickup, DroppedItem, MergeAction,
};
use opencraft::inventory::InsertResult;
use opencraft::item::{BlockPos, ItemStack};
use opencraft::spawning::{chicken_spawn_column, should_spawn_chickens};
use opencraft::terrain::{
    generate_flat_world, run_terrain_generation, terrain_surface_z, DebugWorldKind,
    FLAT_SURFACE_Z,
};
use opencraft::world_items::{WorldItemBook, WorldItemEntry};

const STONE: u16 = 1;
const DIRT: u16 = 2;
const GRASS: u16 = 3;

#[test]
fn flat_world_has_grass_dirt_and_stone_layers() {
    let blocks = generate_flat_world(GRASS, DIRT, STONE);
    assert_eq!(blocks.len(), 128 * 128 * 5);
    assert_eq!(blocks[0], (BlockPos::new(-64, -64, 0), STONE));
    assert_eq!(blocks[1], (BlockPos::new(-64, -64, 1), DIRT));
    assert_eq!(blocks[4], (BlockPos::new(-64, -64, 4), GRASS));
    assert_eq!(blocks[5], (BlockPos::new(-64, -63, 0), STONE));
    assert_eq!(blocks[blocks.len() - 1], (BlockPos::new(63, 63, 4), GRASS));
    for (pos, block) in &blocks {
        assert_eq!(*block == GRASS, pos.z == terrain_surface_z(pos.x, pos.y, DebugWorldKind::Flat, 7));
    }
}

#[test]
fn terrain_surface_is_flat() {
    assert_eq!(terrain_surface_z(0, 0, DebugWorldKind::Flat, 0), FLAT_SURFACE_Z);
    assert_eq!(terrain_surface_z(-100, 55, DebugWorldKind::Flat, 12345), 4);
}

#[test]
fn terrain_generates_once() {
    let mut progress = TerrainGeneration::default();
    let first = run_terrain_generation(&mut progress, DebugWorldKind::Flat, GRASS, DIRT, STONE);
    assert_eq!(first.map(|blocks| blocks.len()), Some(81920));
    assert!(progress.complete);
    assert!(run_terrain_generation(&mut progress, DebugWorldKind::Flat, GRASS, DIRT, STONE).is_none());
}

#[test]
fn world_item_book_records_moves_and_forgets() {
    let mut book: WorldItemBook<[f32; 3]> = WorldItemBook::new();
    let id = book.record_drop([1.0, 2.0, 3.0], ItemStack::block(DIRT, 4));
    assert_eq!(id, WorldItemId(0));
    assert_eq!(book.next_id, 1);
    assert!(book.dirty);
    book.dirty = false;

    book.update_position(id, [5.0, 5.0, 5.0]);
    assert!(book.dirty);
    assert_eq!(book.entries[&0].position, [5.0, 5.0, 5.0]);
    book.update_stack(id, ItemStack::block(DIRT, 9));
    assert_eq!(book.entries[&0].stack.count, 9);

    book.dirty = false;
    book.update_position(WorldItemId(7), [0.0, 0.0, 0.0]);
    book.update_stack(WorldItemId(7), ItemStack::block(STONE, 1));
    book.remove(WorldItemId(7));
    assert!(!book.dirty);

    book.remove(id);
    assert!(book.dirty);
    assert!(book.entries.is_empty());

    let second = book.allocate_id();
    assert_eq!(second, WorldItemId(1));
    book.insert(WorldItemEntry { id: second, position: [0.0; 3], stack: ItemStack::tool(1) });
    assert_eq!(book.entries.len(), 1);
}

#[test]
fn recorded_ids_are_fresh() {
    let mut book: WorldItemBook<u8> = WorldItemBook::new();
    let a = book.record_drop(0, ItemStack::block(DIRT, 1));
    let b = book.record_drop(0, ItemStack::block(DIRT, 1));
    let c = book.record_drop(0, ItemStack::block(DIRT, 1));
    assert!(a != b && b != c && a != c);
    assert_eq!(book.entries.len(), 3);
}

#[test]
fn pickup_delay_counts_down_to_zero() {
    let mut item = DroppedItem { stack: ItemStack::block(DIRT, 1), pickup_delay_ticks: 2 };
    assert!(!item.pickup_ready());
    item.tick_pickup_delay();
    item.tick_pickup_delay();
    assert!(item.pickup_ready());
    item.tick_pickup_delay();
    assert_eq!(item.pickup_delay_ticks, 0);
}

#[test]
fn dropped_stacks_merge_when_close_and_fitting() {
    let a = ItemStack::block(DIRT, 10);
    assert_eq!(merge_dropped_stacks(a, ItemStack::block(DIRT, 5), 64, true), Some(ItemStack::block(DIRT, 15)));
    assert_eq!(merge_dropped_stacks(a, ItemStack::block(DIRT, 5), 64, false), None);
    assert_eq!(merge_dropped_stacks(a, ItemStack::block(DIRT, 60), 64, true), None);
    assert_eq!(merge_dropped_stacks(a, ItemStack::block(STONE, 1), 64, true), None);
}

#[test]
fn each_item_is_claimed_by_the_first_eligible_player() {
    let eligible = vec![
        vec![false, true, true],
        vec![true, true, false],
        vec![true, false, false],
    ];
    let claims = pickup_claims(&eligible, 3);
    assert_eq!(claims, vec![(0, 1), (0, 2), (1, 0)]);
    assert!(pickup_claims(&Vec::new(), 4).is_empty());
}

#[test]
fn chunks_near_a_block_inside_one_chunk() {
    let chunks = chunks_near_block(BlockPos::new(8, 8, 8), 16);
    assert_eq!(chunks, vec![ChunkPos { x: 0, y: 0, z: 0 }]);
}

#[test]
fn chunks_near_a_block_on_a_corner() {
    let chunks = chunks_near_block(BlockPos::new(0, 15, 5), 16);
    assert_eq!(
        chunks,
        vec![
            ChunkPos { x: -1, y: 0, z: 0 },
            ChunkPos { x: -1, y: 1, z: 0 },
            ChunkPos { x: 0, y: 0, z: 0 },
            ChunkPos { x: 0, y: 1, z: 0 },
        ]
    );
}

#[test]
fn chunks_near_block_at_the_edge_of_coordinates() {
    let chunks = chunks_near_block(BlockPos::new(i32::MAX - 2, 0, 0), 1);
    assert_eq!(chunks.len(), 5 * 5 * 5);
    assert_eq!(chunks[chunks.len() - 1], ChunkPos { x: i32::MAX, y: 2, z: 2 });
}

#[test]
fn chickens_spawn_once_near_origin() {
    assert!(should_spawn_chickens(true, false));
    assert!(!should_spawn_chickens(false, false));
    assert!(!should_spawn_chickens(true, true));
    for _ in 0..50 {
        let (x, y) = chicken_spawn_column();
        assert!((-8..8).contains(&x) && (-8..8).contains(&y));
    }
}

#[test]
fn world_seed_can_be_drawn() {
    let _ = WorldSeed::random().0;
}

#[test]
fn merge_pass_uses_counts_read_at_the_start() {
    let items = vec![ItemStack::block(DIRT, 10), ItemStack::block(DIRT, 10), ItemStack::block(DIRT, 10)];
    let limits = vec![64, 64, 64];
    let all_close = vec![vec![true; 3]; 3];
    let merges = plan_item_merges(&items, &limits, &all_close);
    assert_eq!(
        merges,
        vec![
            MergeAction { keeper: 0, absorbed: 1, count: 20 },
            MergeAction { keeper: 0, absorbed: 2, count: 20 },
        ]
    );
}

#[test]
fn merge_pass_skips_far_and_mismatched_items() {
    let items = vec![
        ItemStack::block(DIRT, 60),
        ItemStack::block(DIRT, 10),
        ItemStack::block(STONE, 1),
        ItemStack::block(DIRT, 2),
    ];
    let limits = vec![64, 64, 64, 64];
    let mut close = vec![vec![true; 4]; 4];
    close[1][3] = false;
    let merges = plan_item_merges(&items, &limits, &close);
    assert_eq!(merges, vec![MergeAction { keeper: 0, absorbed: 3, count: 62 }]);
    assert!(plan_item_merges(&Vec::new(), &Vec::new(), &Vec::new()).is_empty());
}

#[test]
fn complete_pickup_forgets_the_item() {
    let mut book: WorldItemBook<u8> = WorldItemBook::new();
    let id = book.record_drop(7, ItemStack::block(DIRT, 5));
    book.dirty = false;
    let mut item = DroppedItem { stack: ItemStack::block(DIRT, 5), pickup_delay_ticks: 0 };
    assert!(settle_pickup(&mut book, &mut item, id, InsertResult::Complete));
    assert!(book.entries.is_empty());
    assert!(book.dirty);
}

#[test]
fn partial_pickup_leaves_the_remainder() {
    let mut book: WorldItemBook<u8> = WorldItemBook::new();
    let id = book.record_drop(7, ItemStack::block(DIRT, 50));
    let mut item = DroppedItem { stack: ItemStack::block(DIRT, 50), pickup_delay_ticks: 0 };
    let remainder = ItemStack::block(DIRT, 14);
    assert!(!settle_pickup(&mut book, &mut item, id, InsertResult::Partial { remainder }));
    assert_eq!(item.stack, remainder);
    let entry = book.entries.get(&id.0).unwrap();
    assert_eq!(entry.stack, remainder);
    assert_eq!(entry.position, 7);
}

#[test]
fn settling_an_unknown_item_leaves_the_ledger() {
    let mut book: WorldItemBook<u8> = WorldItemBook::new();
    let mut item = DroppedItem { stack: ItemStack::block(DIRT, 3), pickup_delay_ticks: 0 };
    assert!(settle_pickup(&mut book, &mut item, WorldItemId(9), InsertResult::Complete));
    assert!(!book.dirty);
}

fn counts_after_merges(items: &[ItemStack], merges: &[MergeAction]) -> Vec<u32> {
    let mut counts: Vec<u32> = items.iter().map(|stack| stack.count as u32).collect();
    for merge in merges {
        counts[merge.keeper] = merge.count as u32;
        counts[merge.absorbed] = 0;
    }
    counts
}

#[test]
fn merge_pass_never_creates_items() {
    let items = vec![
        ItemStack::block(DIRT, 10),
        ItemStack::block(DIRT, 10),
        ItemStack::block(DIRT, 10),
        ItemStack::block(STONE, 40),
        ItemStack::block(STONE, 30),
    ];
    let limits = vec![64; 5];
    let all_close = vec![vec![true; 5]; 5];
    let merges = plan_item_merges(&items, &limits, &all_close);
    let counts = counts_after_merges(&items, &merges);
    let before: u32 = items.iter().map(|stack| stack.count as u32).sum();
    let after: u32 = counts.iter().sum();
    assert!(after <= before);
    assert_eq!(counts, vec![20, 0, 0, 40, 30]);
}
