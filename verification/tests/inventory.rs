use opencraft::components::{PlayerInventory, HOTBAR_SLOTS, INVENTORY_SLOTS};
use opencraft::inventory::{
    apply_inventory_command, consume_from_slot, drop_from_slot, hotbar_drop_command, quick_move, resolve_block_drops,
    select_hotbar, stacks_fit_together, swap_carried, swap_slots, try_insert, BlockDrop,
    DropAmount, DropTarget, InsertResult, InventoryCommand, InventoryCommandQueue,
};
use opencraft::item::{can_merge_stacks, BlockState, ItemKind, ItemStack};

const STONE: u16 = 1;
const DIRT: u16 = 2;
const GRASS: u16 = 3;
const PICKAXE: u16 = 1;
const BLOCK_STACK_LIMIT: u16 = 64;

fn total_of(inventory: &PlayerInventory, kind: ItemKind) -> u32 {
    inventory
        .slots
        .iter()
        .flatten()
        .filter(|stack| stack.kind == kind)
        .map(|stack| stack.count as u32)
        .sum()
}

fn entity() -> hecs::Entity {
    hecs::World::new().spawn(())
}

#[test]
fn try_insert_prefers_selected_hotbar_partial_stack() {
    let dirt = DIRT;
    let mut inventory = PlayerInventory::default();
    inventory.selected_hotbar = 0;
    inventory.set_slot(0, Some(ItemStack::block(dirt, 50)));

    let result = try_insert(&mut inventory, ItemStack::block(dirt, 10), BLOCK_STACK_LIMIT);
    assert_eq!(result, InsertResult::Complete);
    assert_eq!(inventory.slots[0].unwrap().count, 60);
}

#[test]
fn resolve_block_drops_empty_when_not_harvested() {
    let stone = STONE;
    assert!(resolve_block_drops(stone, false, &Vec::new()).is_empty());
}

#[test]
fn resolve_block_drops_self_when_harvested() {
    let stone = STONE;
    let drops = resolve_block_drops(stone, true, &Vec::new());
    assert_eq!(drops.len(), 1);
    assert_eq!(drops[0].count, 1);
    assert!(matches!(drops[0].kind, ItemKind::Block { id, .. } if id == stone));
}

#[test]
fn consume_from_slot_clears_last_block() {
    let dirt = DIRT;
    let mut inventory = PlayerInventory::default();
    inventory.set_slot(0, Some(ItemStack::block(dirt, 1)));
    assert!(consume_from_slot(&mut inventory, 0, 1));
    assert!(inventory.slots[0].is_none());
}

#[test]
fn consume_from_slot_fails_when_empty() {
    let mut inventory = PlayerInventory::default();
    assert!(!consume_from_slot(&mut inventory, 0, 1));
}

#[test]
fn drop_half_rounds_up() {
    let dirt = DIRT;
    let mut inventory = PlayerInventory::default();
    inventory.set_slot(0, Some(ItemStack::block(dirt, 7)));
    let dropped = drop_from_slot(&mut inventory, 0, DropAmount::Half).unwrap();
    assert_eq!(dropped.count, 4);
    assert_eq!(inventory.slots[0].unwrap().count, 3);
}

#[test]
fn resolve_block_drops_follows_the_drop_table() {
    let drops = vec![
        BlockDrop { target: DropTarget::Block(DIRT), count: 0 },
        BlockDrop { target: DropTarget::Unknown, count: 5 },
        BlockDrop { target: DropTarget::Tool(PICKAXE), count: 3 },
        BlockDrop { target: DropTarget::Block(STONE), count: 4 },
    ];
    let stacks = resolve_block_drops(GRASS, true, &drops);
    assert_eq!(
        stacks,
        vec![ItemStack::block(DIRT, 1), ItemStack::tool(PICKAXE), ItemStack::block(STONE, 4)]
    );
    assert!(resolve_block_drops(GRASS, false, &drops).is_empty());
}

#[test]
fn insert_into_empty_inventory_takes_first_hotbar_slot() {
    let mut inventory = PlayerInventory::default();
    inventory.selected_hotbar = 4;
    let result = try_insert(&mut inventory, ItemStack::block(DIRT, 5), BLOCK_STACK_LIMIT);
    assert_eq!(result, InsertResult::Complete);
    assert_eq!(inventory.slots[0], Some(ItemStack::block(DIRT, 5)));
    assert!(inventory.slots[4].is_none());
}

#[test]
fn insert_clamps_to_stack_limit() {
    let mut inventory = PlayerInventory::default();
    let result = try_insert(&mut inventory, ItemStack::block(DIRT, 100), BLOCK_STACK_LIMIT);
    assert_eq!(result, InsertResult::Complete);
    assert_eq!(inventory.slots[0], Some(ItemStack::block(DIRT, 64)));
    assert_eq!(total_of(&inventory, ItemStack::block(DIRT, 1).kind), 64);
}

#[test]
fn insert_spills_from_selected_to_other_partial_stacks() {
    let mut inventory = PlayerInventory::default();
    inventory.selected_hotbar = 2;
    inventory.set_slot(2, Some(ItemStack::block(DIRT, 60)));
    inventory.set_slot(0, Some(ItemStack::block(DIRT, 63)));
    inventory.set_slot(12, Some(ItemStack::block(DIRT, 10)));
    let result = try_insert(&mut inventory, ItemStack::block(DIRT, 20), BLOCK_STACK_LIMIT);
    assert_eq!(result, InsertResult::Complete);
    assert_eq!(inventory.slots[2].unwrap().count, 64);
    assert_eq!(inventory.slots[0].unwrap().count, 64);
    assert_eq!(inventory.slots[12].unwrap().count, 25);
}

#[test]
fn insert_into_full_inventory_hands_back_remainder() {
    let mut inventory = PlayerInventory::default();
    for index in 0..INVENTORY_SLOTS {
        inventory.set_slot(index, Some(ItemStack::block(STONE, 64)));
    }
    inventory.set_slot(20, Some(ItemStack::block(DIRT, 60)));
    let result = try_insert(&mut inventory, ItemStack::block(DIRT, 10), BLOCK_STACK_LIMIT);
    assert_eq!(
        result,
        InsertResult::Partial { remainder: ItemStack::block(DIRT, 6) }
    );
    assert_eq!(inventory.slots[20].unwrap().count, 64);
    assert!(inventory.slots.iter().all(|slot| slot.is_some()));
}

#[test]
fn insert_conserves_items_of_every_kind() {
    let mut inventory = PlayerInventory::default();
    inventory.set_slot(0, Some(ItemStack::block(DIRT, 30)));
    inventory.set_slot(1, Some(ItemStack::tool(PICKAXE)));
    inventory.set_slot(9, Some(ItemStack::block(STONE, 64)));
    let dirt = ItemStack::block(DIRT, 1).kind;
    let stone = ItemStack::block(STONE, 1).kind;
    let before_dirt = total_of(&inventory, dirt);
    let before_stone = total_of(&inventory, stone);
    let result = try_insert(&mut inventory, ItemStack::block(DIRT, 50), BLOCK_STACK_LIMIT);
    let handed_back = match result {
        InsertResult::Complete => 0,
        InsertResult::Partial { remainder } => remainder.count as u32,
    };
    assert_eq!(total_of(&inventory, dirt) + handed_back, before_dirt + 50);
    assert_eq!(total_of(&inventory, stone), before_stone);
}

#[test]
fn tools_do_not_stack() {
    let mut inventory = PlayerInventory::default();
    inventory.set_slot(0, Some(ItemStack::tool(PICKAXE)));
    let result = try_insert(&mut inventory, ItemStack::tool(PICKAXE), 1);
    assert_eq!(result, InsertResult::Complete);
    assert_eq!(inventory.slots[0], Some(ItemStack::tool(PICKAXE)));
    assert_eq!(inventory.slots[1], Some(ItemStack::tool(PICKAXE)));
}

#[test]
fn quick_move_from_hotbar_to_main() {
    let mut inventory = PlayerInventory::default();
    inventory.set_slot(3, Some(ItemStack::block(DIRT, 40)));
    inventory.set_slot(10, Some(ItemStack::block(DIRT, 50)));
    assert!(quick_move(&mut inventory, 3, BLOCK_STACK_LIMIT));
    assert!(inventory.slots[3].is_none());
    assert_eq!(inventory.slots[10].unwrap().count, 64);
    assert_eq!(inventory.slots[9], Some(ItemStack::block(DIRT, 26)));
}

#[test]
fn quick_move_from_main_to_hotbar() {
    let mut inventory = PlayerInventory::default();
    inventory.set_slot(HOTBAR_SLOTS + 5, Some(ItemStack::block(STONE, 12)));
    assert!(quick_move(&mut inventory, (HOTBAR_SLOTS + 5) as u8, BLOCK_STACK_LIMIT));
    assert_eq!(inventory.slots[0], Some(ItemStack::block(STONE, 12)));
    assert!(inventory.slots[HOTBAR_SLOTS + 5].is_none());
}

#[test]
fn quick_move_into_full_section_keeps_rest_and_fails() {
    let mut inventory = PlayerInventory::default();
    for index in 0..HOTBAR_SLOTS {
        inventory.set_slot(index, Some(ItemStack::block(STONE, 64)));
    }
    inventory.set_slot(4, Some(ItemStack::block(DIRT, 60)));
    inventory.set_slot(30, Some(ItemStack::block(DIRT, 10)));
    assert!(!quick_move(&mut inventory, 30, BLOCK_STACK_LIMIT));
    assert_eq!(inventory.slots[4].unwrap().count, 64);
    assert_eq!(inventory.slots[30], Some(ItemStack::block(DIRT, 6)));
}

#[test]
fn quick_move_of_empty_or_missing_slot_fails() {
    let mut inventory = PlayerInventory::default();
    assert!(!quick_move(&mut inventory, 2, BLOCK_STACK_LIMIT));
    assert!(!quick_move(&mut inventory, 200, BLOCK_STACK_LIMIT));
}

#[test]
fn swap_slots_twice_restores() {
    let mut inventory = PlayerInventory::default();
    inventory.set_slot(0, Some(ItemStack::block(DIRT, 3)));
    inventory.set_slot(20, Some(ItemStack::tool(PICKAXE)));
    let before = inventory.slots;
    swap_slots(&mut inventory, 0, 20);
    assert_eq!(inventory.slots[0], Some(ItemStack::tool(PICKAXE)));
    assert_eq!(inventory.slots[20], Some(ItemStack::block(DIRT, 3)));
    swap_slots(&mut inventory, 0, 20);
    assert_eq!(inventory.slots, before);
    swap_slots(&mut inventory, 0, 36);
    assert_eq!(inventory.slots, before);
}

#[test]
fn consume_partial_and_too_many() {
    let mut inventory = PlayerInventory::default();
    inventory.set_slot(5, Some(ItemStack::block(DIRT, 10)));
    assert!(consume_from_slot(&mut inventory, 5, 4));
    assert_eq!(inventory.slots[5], Some(ItemStack::block(DIRT, 6)));
    assert!(!consume_from_slot(&mut inventory, 5, 7));
    assert_eq!(inventory.slots[5], Some(ItemStack::block(DIRT, 6)));
    assert!(consume_from_slot(&mut inventory, 40, 0));
}

#[test]
fn drop_one_and_all() {
    let mut inventory = PlayerInventory::default();
    inventory.set_slot(0, Some(ItemStack::block(DIRT, 5)));
    assert_eq!(drop_from_slot(&mut inventory, 0, DropAmount::One), Some(ItemStack::block(DIRT, 1)));
    assert_eq!(inventory.slots[0], Some(ItemStack::block(DIRT, 4)));
    assert_eq!(drop_from_slot(&mut inventory, 0, DropAmount::All), Some(ItemStack::block(DIRT, 4)));
    assert!(inventory.slots[0].is_none());
    assert_eq!(drop_from_slot(&mut inventory, 0, DropAmount::One), None);
    assert_eq!(drop_from_slot(&mut inventory, 99, DropAmount::One), None);
}

#[test]
fn drop_half_of_one_throws_it() {
    let mut inventory = PlayerInventory::default();
    inventory.set_slot(0, Some(ItemStack::block(DIRT, 1)));
    assert_eq!(drop_from_slot(&mut inventory, 0, DropAmount::Half), Some(ItemStack::block(DIRT, 1)));
    assert!(inventory.slots[0].is_none());
}

#[test]
fn select_hotbar_clamps_to_last_slot() {
    let mut inventory = PlayerInventory::default();
    select_hotbar(&mut inventory, 3);
    assert_eq!(inventory.selected_hotbar, 3);
    select_hotbar(&mut inventory, 42);
    assert_eq!(inventory.selected_hotbar, 8);
}

#[test]
fn swap_carried_returns_previous() {
    let mut inventory = PlayerInventory::default();
    inventory.set_slot(7, Some(ItemStack::block(STONE, 2)));
    let previous = swap_carried(&mut inventory, 7, Some(ItemStack::tool(PICKAXE)));
    assert_eq!(previous, Some(Some(ItemStack::block(STONE, 2))));
    assert_eq!(inventory.slots[7], Some(ItemStack::tool(PICKAXE)));
    assert_eq!(swap_carried(&mut inventory, 36, None), None);
}

#[test]
fn stacks_fit_together_respects_kind_and_limit() {
    let a = ItemStack::block(DIRT, 30);
    assert!(stacks_fit_together(&a, &ItemStack::block(DIRT, 34), 64));
    assert!(!stacks_fit_together(&a, &ItemStack::block(DIRT, 35), 64));
    assert!(!stacks_fit_together(&a, &ItemStack::block(STONE, 1), 64));
    let other_state = ItemStack { kind: ItemKind::Block { id: DIRT, state: BlockState(1) }, count: 1 };
    assert!(!stacks_fit_together(&a, &other_state, 64));
    assert!(can_merge_stacks(a.kind, ItemStack::block(DIRT, 1).kind));
    assert!(!can_merge_stacks(a.kind, ItemStack::tool(PICKAXE).kind));
}

#[test]
fn inventory_commands_report_their_effect() {
    let player = entity();
    let mut inventory = PlayerInventory::default();
    let insert = InventoryCommand::Insert { player, stack: ItemStack::block(DIRT, 3), world_item: None };
    let effect = apply_inventory_command(&mut inventory, &insert, BLOCK_STACK_LIMIT);
    assert!(effect.dirty);
    assert_eq!(effect.inserted, Some(InsertResult::Complete));

    let quick = InventoryCommand::QuickMove { player, slot: 30 };
    let effect = apply_inventory_command(&mut inventory, &quick, BLOCK_STACK_LIMIT);
    assert!(!effect.dirty);

    let drop = InventoryCommand::Drop { player, slot: 0, amount: DropAmount::One };
    let effect = apply_inventory_command(&mut inventory, &drop, 0);
    assert!(effect.dirty);
    assert_eq!(effect.dropped, Some(ItemStack::block(DIRT, 1)));

    let swap = InventoryCommand::SwapCarried { player, slot: 50, carried: None };
    assert!(!apply_inventory_command(&mut inventory, &swap, 0).dirty);
    let swap = InventoryCommand::SwapCarried { player, slot: 1, carried: None };
    assert!(apply_inventory_command(&mut inventory, &swap, 0).dirty);
    let moved = InventoryCommand::MoveSlot { player, from: 0, to: 5 };
    assert!(apply_inventory_command(&mut inventory, &moved, 0).dirty);
    assert_eq!(inventory.slots[5], Some(ItemStack::block(DIRT, 2)));
}

#[test]
fn command_queue_drains_in_order() {
    let player = entity();
    let mut queue = InventoryCommandQueue::default();
    queue.push(InventoryCommand::QuickMove { player, slot: 1 });
    queue.push(InventoryCommand::MoveSlot { player, from: 1, to: 2 });
    let drained = queue.drain();
    assert_eq!(drained.len(), 2);
    assert!(matches!(drained[0], InventoryCommand::QuickMove { slot: 1, .. }));
    assert!(matches!(drained[1], InventoryCommand::MoveSlot { from: 1, to: 2, .. }));
    assert!(queue.commands.is_empty());
}

#[test]
fn ledge_jump_eligible_when_was_on_ground() {
    let can_jump = true && true && 0u8 == 0;
    assert!(can_jump);
    let on_ground = false;
    let was_on_ground = true;
    assert!(was_on_ground && !on_ground);
}

#[test]
fn drop_input_throws_from_selected_slot() {
    let player = entity();
    let mut inventory = PlayerInventory::default();
    inventory.selected_hotbar = 4;
    match hotbar_drop_command(player, &inventory, Some(DropAmount::All)) {
        Some(InventoryCommand::Drop { player: p, slot, amount }) => {
            assert_eq!(p, player);
            assert_eq!(slot, 4);
            assert_eq!(amount, DropAmount::All);
        }
        other => panic!("unexpected {other:?}"),
    }
    assert!(hotbar_drop_command(player, &inventory, None).is_none());
}
