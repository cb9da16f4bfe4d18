use opencraft::mining::{can_harvest_block, BlockHarvestRule, ToolClass};

// The registry facts these checks rest on: dirt (hardness 0.5) needs no tool,
// stone (hardness 1.5) needs a pickaxe, and the wooden pickaxe (a pickaxe)
// mines at twice the speed of the hand.
const PICKAXE: ToolClass = ToolClass(1);
const HAND_EFFICIENCY: f32 = 1.0;
const WOODEN_PICKAXE_EFFICIENCY: f32 = 2.0;
const DIRT_HARDNESS: f32 = 0.5;
const STONE_HARDNESS: f32 = 1.5;
const DIRT: BlockHarvestRule = BlockHarvestRule { requires_tool: false, preferred_tool: Some(ToolClass(2)) };
const STONE: BlockHarvestRule = BlockHarvestRule { requires_tool: true, preferred_tool: Some(PICKAXE) };

fn break_time_seconds(hardness: f32, tool_efficiency: f32, can_harvest: bool) -> f32 {
    if hardness < 0.0 {
        return f32::INFINITY;
    }
    if hardness == 0.0 {
        return 0.0;
    }
    let divisor = if can_harvest { 30.0 } else { 100.0 };
    hardness * divisor / tool_efficiency / 20.0
}

#[test]
fn dirt_by_hand_about_three_quarters_second() {
    let can_harvest = can_harvest_block(DIRT, None);
    let seconds = break_time_seconds(DIRT_HARDNESS, HAND_EFFICIENCY, can_harvest);
    assert!((seconds - 0.75).abs() < 0.05, "got {seconds}");
}

#[test]
fn dirt_by_wooden_pick_about_point_four_seconds() {
    let can_harvest = can_harvest_block(DIRT, Some(PICKAXE));
    let seconds = break_time_seconds(DIRT_HARDNESS, WOODEN_PICKAXE_EFFICIENCY, can_harvest);
    assert!((seconds - 0.375).abs() < 0.05, "got {seconds}");
}

#[test]
fn stone_by_hand_about_seven_and_half_seconds() {
    let can_harvest = can_harvest_block(STONE, None);
    assert!(!can_harvest);
    let seconds = break_time_seconds(STONE_HARDNESS, HAND_EFFICIENCY, can_harvest);
    assert!((seconds - 7.5).abs() < 0.1, "got {seconds}");
}

#[test]
fn stone_by_wooden_pick_about_one_point_one_seconds() {
    let can_harvest = can_harvest_block(STONE, Some(PICKAXE));
    assert!(can_harvest);
    let seconds = break_time_seconds(STONE_HARDNESS, WOODEN_PICKAXE_EFFICIENCY, can_harvest);
    assert!((seconds - 1.125).abs() < 0.1, "got {seconds}");
}
