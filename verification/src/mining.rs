use vstd::prelude::*;

use crate::interaction::{BlockOffset, VoxelRayHit};
use crate::item::{BlockId, BlockPos};

verus! {

/// The class of a tool (pickaxe, axe, ...) as the tool registry numbers it.
#[derive(Debug, Clone, Copy, PartialEq, Eq, Structural)]
pub struct ToolClass(pub u16);

/// What the block registry says about harvesting a block type: whether it
/// needs a tool to drop anything, and which tool class it prefers.
#[derive(Debug, Clone, Copy, PartialEq, Eq, Structural)]
pub struct BlockHarvestRule {
    pub requires_tool: bool,
    pub preferred_tool: Option<ToolClass>,
}

/// Whether breaking a block drops it: always for a block that needs no tool
/// or names no preferred tool; otherwise only when the held tool is of the
/// preferred class. `active_tool_class` is the class of the held tool, none
/// when the hand is empty or the tool is unknown to the registry.
pub fn can_harvest_block(rule: BlockHarvestRule, active_tool_class: Option<ToolClass>) -> (r: bool)
    ensures
        r == (!rule.requires_tool || rule.preferred_tool is None || (active_tool_class is Some
            && active_tool_class == rule.preferred_tool)),
{
    if !rule.requires_tool {
        return true;
    }
    let preferred = match rule.preferred_tool {
        Some(preferred) => preferred,
        None => {
            return true;
        },
    };
    match active_tool_class {
        Some(class) => class == preferred,
        None => false,
    }
}

/// The label of what the player mines with: the held tool's name, or "hand".
pub fn tool_label_for_inventory(active_tool_name: Option<&str>) -> (r: String)
    ensures
        match active_tool_name {
            Some(name) => r@ == name@,
            None => r@ == "hand"@,
        },
{
    match active_tool_name {
        Some(name) => name.to_owned(),
        None => "hand".to_owned(),
    }
}

/// The block a player is mining.
#[derive(Debug, Clone, Copy, PartialEq, Eq, Structural)]
pub struct MiningTarget {
    pub position: BlockPos,
    pub block: BlockId,
}

/// Emitted when a block is fully mined; `harvested` says whether it drops.
#[derive(Debug, Clone, Copy, PartialEq, Eq, Structural)]
pub struct BlockBroken {
    pub position: BlockPos,
    pub block_id: BlockId,
    pub harvested: bool,
}

/// What a player's mining rests on this tick: whether the player rides
/// something, whether there is input for it and the break input is held,
/// whether the voxel world is loaded, the block the view ray hits within reach
/// with the block type there, and whether that type can be broken.
#[derive(Debug, Clone, Copy)]
pub struct MiningRequest {
    pub mounted: bool,
    pub has_input: bool,
    pub break_pressed: bool,
    pub world_loaded: bool,
    pub hit: Option<(VoxelRayHit, BlockId)>,
    pub breakable: bool,
}

/// What the mining system does for a player this tick.
#[derive(Debug, Clone, Copy, PartialEq, Eq, Structural)]
pub enum MiningStep {
    /// Leave the mining state as it is.
    Skip,
    /// Stop mining: clear the target and its progress.
    Reset,
    /// Keep mining `target`; `restart` when it is not the block mined so far,
    /// whose progress then starts again from zero.
    Mine { target: MiningTarget, face_normal: BlockOffset, restart: bool },
}

/// The mining decision: riding, missing input, a released break input, no
/// block within reach or an unbreakable one stop mining; an unloaded world
/// leaves the state alone; otherwise the hit block is mined, and its progress
/// restarts unless it is the block that `current` names.
pub open spec fn mining_decision(request: MiningRequest, current: Option<MiningTarget>) -> MiningStep {
    if request.mounted || !request.has_input || !request.break_pressed {
        MiningStep::Reset
    } else if !request.world_loaded {
        MiningStep::Skip
    } else {
        match request.hit {
            None => MiningStep::Reset,
            Some((hit, block)) => if !request.breakable {
                MiningStep::Reset
            } else {
                let target = MiningTarget { position: hit.block_pos, block };
                MiningStep::Mine {
                    target,
                    face_normal: hit.normal,
                    restart: current != Some(target),
                }
            },
        }
    }
}

/// Decides a player's mining step this tick (see `mining_decision`).
pub fn mining_step(request: MiningRequest, current: Option<MiningTarget>) -> (r: MiningStep)
    ensures
        r == mining_decision(request, current),
{
    if request.mounted || !request.has_input || !request.break_pressed {
        return MiningStep::Reset;
    }
    if !request.world_loaded {
        return MiningStep::Skip;
    }
    let (hit, block) = match request.hit {
        Some(h) => h,
        None => {
            return MiningStep::Reset;
        },
    };
    if !request.breakable {
        return MiningStep::Reset;
    }
    let target = MiningTarget { position: hit.block_pos, block };
    let same_target = match current {
        Some(c) => c == target,
        None => false,
    };
    MiningStep::Mine { target, face_normal: hit.normal, restart: !same_target }
}

/// Mining the same block tick after tick keeps its progress: once a block is
/// the current target, the next step on the same hit does not restart.
pub proof fn law_mining_keeps_progress_on_same_block(request: MiningRequest, current: Option<MiningTarget>)
    requires
        mining_decision(request, current) is Mine,
    ensures
        ({
            let target = mining_decision(request, current)->target;
            mining_decision(request, Some(target)) == (MiningStep::Mine {
                target,
                face_normal: mining_decision(request, current)->face_normal,
                restart: false,
            })
        }),
{
}

/// A riding player does not mine: whatever the player aims at, the step of a
/// mounted request is a reset; so is one without input or with the break
/// input released.
pub proof fn law_mounted_player_does_not_mine(request: MiningRequest, current: Option<MiningTarget>)
    ensures
        request.mounted ==> mining_decision(request, current) == MiningStep::Reset,
        !request.has_input || !request.break_pressed ==> mining_decision(request, current)
            == MiningStep::Reset,
        mining_decision(request, current) is Mine ==> !request.mounted && request.has_input
            && request.break_pressed && request.world_loaded && request.breakable
            && request.hit is Some,
{
}

} // verus!
