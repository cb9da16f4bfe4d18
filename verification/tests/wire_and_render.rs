use opencraft::components::PlayerInventory;
use opencraft::inventory::DropAmount;
use opencraft::item::{BlockState, ItemKind, ItemStack};
use opencraft::render::{
    break_particle_count, break_particle_face, break_particle_seed, concat_wgsl, hash_u32,
    stack_visual_count,
};
use opencraft::screen_text::glyph_rows;
use opencraft::wire::{
    drop_amount_from_wire, drop_amount_to_wire, inventory_from_wire, inventory_to_wire,
    stack_from_wire, stack_to_wire, DropAmountWire, ItemStackWire,
};

#[test]
fn stacks_round_trip_through_the_wire() {
    let block = ItemStack { kind: ItemKind::Block { id: 4, state: BlockState(2) }, count: 17 };
    assert_eq!(stack_to_wire(block), ItemStackWire::Block { id: 4, state: 2, count: 17 });
    assert_eq!(stack_from_wire(stack_to_wire(block)), block);
    let tool = ItemStack::tool(3);
    assert_eq!(stack_to_wire(tool), ItemStackWire::Tool { id: 3 });
    assert_eq!(stack_from_wire(stack_to_wire(tool)), tool);
    let odd = ItemStack { kind: ItemKind::Tool(3), count: 5 };
    assert_eq!(stack_from_wire(stack_to_wire(odd)).count, 1);
}

#[test]
fn inventories_round_trip_through_the_wire() {
    let mut inventory = PlayerInventory::starter_loadout(2);
    inventory.set_slot(20, Some(ItemStack::block(9, 33)));
    inventory.selected_hotbar = 6;
    let sent = inventory_to_wire(&inventory);
    assert_eq!(sent.len(), 36);
    let back = inventory_from_wire(sent, inventory.selected_hotbar);
    assert_eq!(back.slots, inventory.slots);
    assert_eq!(back.selected_hotbar, 6);
}

#[test]
fn short_and_long_wire_inventories() {
    let back = inventory_from_wire(vec![Some(ItemStackWire::Tool { id: 1 })], 200);
    assert_eq!(back.slots[0], Some(ItemStack::tool(1)));
    assert!(back.slots[1..].iter().all(|slot| slot.is_none()));
    assert_eq!(back.selected_hotbar, 8);
    let long: Vec<Option<ItemStackWire>> = (0..40).map(|i| Some(ItemStackWire::Block { id: i, state: 0, count: 1 })).collect();
    let back = inventory_from_wire(long, 0);
    assert_eq!(back.slots[35], Some(ItemStack::block(35, 1)));
}

#[test]
fn drop_amounts_round_trip() {
    for amount in [DropAmount::One, DropAmount::Half, DropAmount::All] {
        assert_eq!(drop_amount_from_wire(drop_amount_to_wire(amount)), amount);
    }
    assert_eq!(drop_amount_to_wire(DropAmount::Half), DropAmountWire::Half);
}

#[test]
fn glyph_rows_cover_digits_letters_and_punctuation() {
    assert_eq!(glyph_rows('0'), Some([0b01110, 0b10001, 0b10011, 0b10101, 0b11001, 0b10001, 0b01110]));
    assert_eq!(glyph_rows('a'), glyph_rows('A'));
    assert_eq!(glyph_rows(':'), Some([0, 0b01100, 0b01100, 0, 0b01100, 0b01100, 0]));
    assert_eq!(glyph_rows('Q'), None);
    assert_eq!(glyph_rows(' '), None);
    for ch in "0123456789-.:/ABCDEFGHIJKLMNOPRSTUVWXYZ".chars() {
        let rows = glyph_rows(ch).unwrap();
        assert!(rows.iter().all(|row| *row < 32));
    }
}

#[test]
fn stack_visuals_are_between_one_and_four() {
    assert_eq!(stack_visual_count(0), 1);
    assert_eq!(stack_visual_count(1), 1);
    assert_eq!(stack_visual_count(3), 3);
    assert_eq!(stack_visual_count(64), 4);
}

#[test]
fn particle_hash_values() {
    assert_eq!(hash_u32(0), 0);
    let mut x: u32 = 1;
    x ^= x >> 16;
    x = x.wrapping_mul(0x7feb352d);
    x ^= x >> 15;
    x = x.wrapping_mul(0x846ca68b);
    x ^= x >> 16;
    assert_eq!(hash_u32(1), x);
    assert_ne!(hash_u32(1), 1);
    let seed = break_particle_seed(1, 2, 3);
    assert_eq!(seed, 1u32 ^ 2u32.wrapping_mul(374761393) ^ 3u32.wrapping_mul(668265263));
    let seed_neg = break_particle_seed(-1, 0, 0);
    assert_eq!(seed_neg, u32::MAX);
    for i in 0..60 {
        assert!(break_particle_face(seed, i) < 6);
    }
}

#[test]
fn particle_budget() {
    assert_eq!(break_particle_count(0), 60);
    assert_eq!(break_particle_count(2550), 10);
    assert_eq!(break_particle_count(2560), 0);
    assert_eq!(break_particle_count(9999), 0);
}

#[test]
fn shader_source_concatenation() {
    assert_eq!(concat_wgsl("shared;", "main;"), "shared;main;");
}
