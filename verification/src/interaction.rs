use vstd::prelude::*;

use crate::components::{selected_stack, selection_in_range, PlayerInventory};
use crate::inventory::{consume_from_slot, consume_outcome};
use crate::item::{BlockId, BlockPos, ItemKind, ItemStack};

verus! {

/// A unit step between neighbouring blocks (the normal of a block face).
#[derive(Debug, Clone, Copy, PartialEq, Eq, Structural)]
pub struct BlockOffset {
    pub x: i32,
    pub y: i32,
    pub z: i32,
}

/// The block a view ray hits first, and the normal of the face it enters by.
#[derive(Debug, Clone, Copy, PartialEq, Eq, Structural)]
pub struct VoxelRayHit {
    pub block_pos: BlockPos,
    pub normal: BlockOffset,
}

/// A player's intent to change a block; the authoritative systems apply it.
#[derive(Debug, Clone, Copy, PartialEq, Eq, Structural)]
pub struct BlockChangeIntent {
    pub position: BlockPos,
    pub new_block: BlockId,
}

/// Whether a block position plus an offset stays within `i32` coordinates.
pub open spec fn offset_fits(pos: BlockPos, offset: BlockOffset) -> bool {
    &&& i32::MIN <= pos.x + offset.x <= i32::MAX
    &&& i32::MIN <= pos.y + offset.y <= i32::MAX
    &&& i32::MIN <= pos.z + offset.z <= i32::MAX
}

/// Where a block placed against the hit face goes: the neighbour of the hit
/// block across that face.
pub fn place_position(hit: VoxelRayHit) -> (r: BlockPos)
    requires
        offset_fits(hit.block_pos, hit.normal),
    ensures
        r.x == hit.block_pos.x + hit.normal.x,
        r.y == hit.block_pos.y + hit.normal.y,
        r.z == hit.block_pos.z + hit.normal.z,
{
    BlockPos::new(
        hit.block_pos.x + hit.normal.x,
        hit.block_pos.y + hit.normal.y,
        hit.block_pos.z + hit.normal.z,
    )
}

/// One tick of a countdown that stops at zero.
pub fn tick_cooldown(cooldown: u8) -> (r: u8)
    ensures
        r == (if cooldown > 0 {
            cooldown - 1
        } else {
            0
        }),
{
    if cooldown > 0 {
        cooldown - 1
    } else {
        0
    }
}

/// What a player's block placement this tick rests on: whether the player
/// rides something, whether the place input is held, the block the view ray
/// hits (none within reach), whether the block placed against that hit would
/// overlap the player, and the cooldown to restart after a placement.
#[derive(Debug, Clone, Copy)]
pub struct PlaceRequest {
    pub mounted: bool,
    pub place_pressed: bool,
    pub hit: Option<VoxelRayHit>,
    pub overlaps_player: bool,
    pub cooldown_reset: u8,
}

/// A placement happens when the player is not riding, holds the place input,
/// holds at least one block, aims at a block within reach, the cooldown (after
/// this tick's countdown) has run out, and the new block would not overlap the
/// player.
pub open spec fn placement_allowed(inv: PlayerInventory, cooldown: u8, request: PlaceRequest) -> bool {
    let ticked = if cooldown > 0 {
        cooldown - 1
    } else {
        0
    };
    &&& !request.mounted
    &&& request.place_pressed
    &&& selected_stack(inv) matches Some(ItemStack { kind: ItemKind::Block { .. }, count })
    &&& count > 0
    &&& request.hit is Some
    &&& ticked == 0
    &&& !request.overlaps_player
}

/// One tick of block placement for one player. The cooldown counts down every
/// tick. When the placement is allowed (see `placement_allowed`), one block
/// leaves the selected slot, the cooldown restarts, and the intent to put that
/// block type next to the hit face is returned; otherwise the inventory stays
/// as it is and nothing is returned.
pub fn place_block_step(inventory: &mut PlayerInventory, cooldown: &mut u8, request: PlaceRequest) -> (r:
    Option<BlockChangeIntent>)
    requires
        selection_in_range(*old(inventory)),
        request.hit matches Some(hit) ==> offset_fits(hit.block_pos, hit.normal),
    ensures
        final(inventory).selected_hotbar == old(inventory).selected_hotbar,
        placement_allowed(*old(inventory), *old(cooldown), request) ==> {
            let hit = request.hit->0;
            let slots = consume_outcome(
                old(inventory).slots@,
                old(inventory).selected_hotbar as int,
                1,
            ).0;
            &&& final(inventory).slots@ == slots
            &&& *final(cooldown) == request.cooldown_reset
            &&& r == Some(
                BlockChangeIntent {
                    position: BlockPos {
                        x: (hit.block_pos.x + hit.normal.x) as i32,
                        y: (hit.block_pos.y + hit.normal.y) as i32,
                        z: (hit.block_pos.z + hit.normal.z) as i32,
                    },
                    new_block: selected_stack(*old(inventory))->0.kind->id,
                },
            )
        },
        !placement_allowed(*old(inventory), *old(cooldown), request) ==> {
            &&& final(inventory).slots@ == old(inventory).slots@
            &&& *final(cooldown) == (if *old(cooldown) > 0 {
                *old(cooldown) - 1
            } else {
                0
            })
            &&& r is None
        },
{
    *cooldown = tick_cooldown(*cooldown);
    if request.mounted || !request.place_pressed {
        return None;
    }
    let block_id = match inventory.active_block() {
        Some((id, _state)) => id,
        None => {
            return None;
        },
    };
    let hotbar_slot = inventory.selected_hotbar as usize;
    let hit = match request.hit {
        Some(hit) => hit,
        None => {
            return None;
        },
    };
    let place_pos = place_position(hit);
    if *cooldown != 0 || request.overlaps_player {
        return None;
    }
    if !consume_from_slot(inventory, hotbar_slot, 1) {
        return None;
    }
    *cooldown = request.cooldown_reset;
    Some(BlockChangeIntent { position: place_pos, new_block: block_id })
}

/// No block is placed without the place input or while riding: such a step
/// leaves the inventory as it is and returns nothing. A placement takes a
/// block from a selected stack of blocks, against a hit within reach, once the
/// cooldown has run out and when the new block would not overlap the player.
pub proof fn law_placement_needs_input(inv: PlayerInventory, cooldown: u8, request: PlaceRequest)
    ensures
        !request.place_pressed || request.mounted ==> !placement_allowed(inv, cooldown, request),
        placement_allowed(inv, cooldown, request) ==> {
            &&& request.place_pressed
            &&& !request.mounted
            &&& request.hit is Some
            &&& !request.overlaps_player
            &&& cooldown <= 1
            &&& selected_stack(inv) matches Some(stack) && stack.kind is Block && stack.count >= 1
        },
{
}

} // verus!
