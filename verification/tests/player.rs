use opencraft::components::PlayerInventory;
use opencraft::interaction::{place_block_step, place_position, tick_cooldown, BlockChangeIntent, BlockOffset, PlaceRequest, VoxelRayHit};
use opencraft::item::{BlockPos, BlockState, ItemKind, ItemStack};
use opencraft::mining::{
    can_harvest_block, mining_step, tool_label_for_inventory, BlockHarvestRule, MiningRequest,
    MiningStep, MiningTarget, ToolClass,
};
use opencraft::play_mode::{survival_active, ActivePlayMode, PlayMode};
use opencraft::simulation::{
    input_player_id, local_player_entity, net_player_spawned, player_spawn_action, LocalPlayer,
    LocalPlayerId, SimulationMode, SpawnAction,
};

const DIRT: u16 = 2;
const PICKAXE_CLASS: ToolClass = ToolClass(1);

fn hit_at(x: i32, y: i32, z: i32, up: bool) -> VoxelRayHit {
    VoxelRayHit {
        block_pos: BlockPos::new(x, y, z),
        normal: if up { BlockOffset { x: 0, y: 0, z: 1 } } else { BlockOffset { x: -1, y: 0, z: 0 } },
    }
}

fn request(hit: Option<VoxelRayHit>) -> PlaceRequest {
    PlaceRequest { mounted: false, place_pressed: true, hit, overlaps_player: false, cooldown_reset: 9 }
}

#[test]
fn play_mode_labels_and_gating() {
    assert_eq!(PlayMode::Survival.label(), "Survival");
    assert_eq!(PlayMode::Spectator.label(), "Spectator");
    assert!(ActivePlayMode::default().allows_player_sim());
    assert!(!ActivePlayMode(PlayMode::Spectator).allows_player_sim());
    assert!(survival_active(None));
    assert!(survival_active(Some(ActivePlayMode(PlayMode::Survival))));
    assert!(!survival_active(Some(ActivePlayMode(PlayMode::Spectator))));
}

#[test]
fn inventory_accessors() {
    let mut inventory = PlayerInventory::starter_loadout(7);
    assert_eq!(inventory.active_stack(), None);
    inventory.selected_hotbar = 1;
    assert_eq!(inventory.active_tool(), Some(7));
    assert_eq!(inventory.active_block(), None);
    inventory.set_slot(2, Some(ItemStack::block(DIRT, 3)));
    inventory.selected_hotbar = 2;
    assert_eq!(inventory.active_block(), Some((DIRT, BlockState(0))));
    assert_eq!(inventory.active_tool(), None);
    inventory.set_slot(2, Some(ItemStack { kind: ItemKind::Block { id: DIRT, state: BlockState(0) }, count: 0 }));
    assert_eq!(inventory.active_block(), None);
    assert_eq!(inventory.slot(99), None);
    inventory.set_slot(99, Some(ItemStack::tool(1)));
    assert_eq!(PlayerInventory::hotbar_slot_index(4), 4);
    assert_eq!(PlayerInventory::main_slot_index(4), 13);
}

#[test]
fn placing_consumes_one_block_and_restarts_cooldown() {
    let mut inventory = PlayerInventory::default();
    inventory.set_slot(0, Some(ItemStack::block(DIRT, 2)));
    let mut cooldown = 0u8;
    let intent = place_block_step(&mut inventory, &mut cooldown, request(Some(hit_at(3, 4, 5, true))));
    assert_eq!(intent, Some(BlockChangeIntent { position: BlockPos::new(3, 4, 6), new_block: DIRT }));
    assert_eq!(inventory.slots[0], Some(ItemStack::block(DIRT, 1)));
    assert_eq!(cooldown, 9);
}

#[test]
fn placing_waits_for_cooldown() {
    let mut inventory = PlayerInventory::default();
    inventory.set_slot(0, Some(ItemStack::block(DIRT, 2)));
    let mut cooldown = 2u8;
    assert_eq!(place_block_step(&mut inventory, &mut cooldown, request(Some(hit_at(0, 0, 0, true)))), None);
    assert_eq!(cooldown, 1);
    assert!(place_block_step(&mut inventory, &mut cooldown, request(Some(hit_at(0, 0, 0, true)))).is_some());
}

#[test]
fn placing_refused_cases() {
    let mut inventory = PlayerInventory::default();
    inventory.set_slot(0, Some(ItemStack::block(DIRT, 2)));
    let mut cooldown = 0u8;
    let mut blocked = request(Some(hit_at(0, 0, 0, false)));
    blocked.overlaps_player = true;
    assert_eq!(place_block_step(&mut inventory, &mut cooldown, blocked), None);
    assert_eq!(place_block_step(&mut inventory, &mut cooldown, request(None)), None);
    let mut riding = request(Some(hit_at(0, 0, 0, false)));
    riding.mounted = true;
    assert_eq!(place_block_step(&mut inventory, &mut cooldown, riding), None);
    assert_eq!(inventory.slots[0], Some(ItemStack::block(DIRT, 2)));
    inventory.selected_hotbar = 1;
    assert_eq!(place_block_step(&mut inventory, &mut cooldown, request(Some(hit_at(0, 0, 0, false)))), None);
}

#[test]
fn place_position_and_cooldown() {
    assert_eq!(place_position(hit_at(5, 5, 5, false)), BlockPos::new(4, 5, 5));
    assert_eq!(tick_cooldown(0), 0);
    assert_eq!(tick_cooldown(3), 2);
}

#[test]
fn harvesting_needs_the_preferred_tool() {
    let stone = BlockHarvestRule { requires_tool: true, preferred_tool: Some(PICKAXE_CLASS) };
    let dirt = BlockHarvestRule { requires_tool: false, preferred_tool: None };
    assert!(can_harvest_block(dirt, None));
    assert!(!can_harvest_block(stone, None));
    assert!(can_harvest_block(stone, Some(PICKAXE_CLASS)));
    assert!(!can_harvest_block(stone, Some(ToolClass(2))));
    let any = BlockHarvestRule { requires_tool: true, preferred_tool: None };
    assert!(can_harvest_block(any, None));
}

#[test]
fn tool_label_defaults_to_hand() {
    assert_eq!(tool_label_for_inventory(None), "hand");
    assert_eq!(tool_label_for_inventory(Some("wooden_pickaxe")), "wooden_pickaxe");
}

#[test]
fn mining_restarts_only_on_a_new_target() {
    let hit = hit_at(1, 2, 3, true);
    let req = MiningRequest {
        mounted: false,
        has_input: true,
        break_pressed: true,
        world_loaded: true,
        hit: Some((hit, DIRT)),
        breakable: true,
    };
    let target = MiningTarget { position: BlockPos::new(1, 2, 3), block: DIRT };
    assert_eq!(
        mining_step(req, None),
        MiningStep::Mine { target, face_normal: hit.normal, restart: true }
    );
    assert_eq!(
        mining_step(req, Some(target)),
        MiningStep::Mine { target, face_normal: hit.normal, restart: false }
    );
    let mut released = req;
    released.break_pressed = false;
    assert_eq!(mining_step(released, Some(target)), MiningStep::Reset);
    let mut unloaded = req;
    unloaded.world_loaded = false;
    assert_eq!(mining_step(unloaded, Some(target)), MiningStep::Skip);
    let mut bedrock = req;
    bedrock.breakable = false;
    assert_eq!(mining_step(bedrock, None), MiningStep::Reset);
}

#[test]
fn spawn_decisions() {
    assert_eq!(player_spawn_action(false, None, None, false), SpawnAction::Wait);
    assert_eq!(player_spawn_action(true, None, None, false), SpawnAction::SpawnLocalPlayer);
    assert_eq!(player_spawn_action(true, Some(SimulationMode::Local), None, true), SpawnAction::Wait);
    assert_eq!(
        player_spawn_action(true, Some(SimulationMode::AuthoritativeServer), None, false),
        SpawnAction::Wait
    );
    let waiting = LocalPlayer { id: Some(5), spawned: false };
    assert_eq!(
        player_spawn_action(true, Some(SimulationMode::NetworkClient), Some(waiting), false),
        SpawnAction::SpawnNetworkPlayer(5)
    );
    let spawned = LocalPlayer { id: Some(5), spawned: true };
    assert_eq!(
        player_spawn_action(true, Some(SimulationMode::NetworkClient), Some(spawned), false),
        SpawnAction::Wait
    );
    assert_eq!(SimulationMode::default(), SimulationMode::Local);
    assert!(net_player_spawned(&vec![1, 5, 9], 5));
    assert!(!net_player_spawned(&vec![1, 9], 5));
}

#[test]
fn input_and_local_player_resolution() {
    let local = LocalPlayerId { id: Some(4), spawned: true };
    assert_eq!(input_player_id(Some(2), Some(local)), Some(2));
    assert_eq!(input_player_id(None, Some(local)), Some(4));
    assert_eq!(input_player_id(None, None), None);

    let mut world = hecs::World::new();
    let a = world.spawn(());
    let b = world.spawn(());
    let net_players = vec![(a, 3), (b, 4)];
    assert_eq!(local_player_entity(Some(local), &net_players, &vec![a, b]), Some(b));
    let unknown = LocalPlayerId { id: Some(9), spawned: false };
    assert_eq!(local_player_entity(Some(unknown), &net_players, &vec![a, b]), None);
    assert_eq!(local_player_entity(None, &net_players, &vec![b, a]), Some(b));
    assert_eq!(local_player_entity(None, &net_players, &Vec::new()), None);
}

#[test]
fn held_jump_fires_twice_in_forty_steps_with_thirty_step_cooldown() {
    let cooldown_steps = 30u8;
    let mut cooldown = 0u8;
    let mut jumps = 0u32;
    for _ in 0..40 {
        if cooldown == 0 {
            jumps += 1;
            cooldown = cooldown_steps;
        }
        cooldown = tick_cooldown(cooldown);
    }
    assert_eq!(jumps, 2);
}
