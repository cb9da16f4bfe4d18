use vstd::prelude::*;

use crate::item::{BlockId, BlockState, ItemKind, ItemStack, ToolId};

verus! {

/// `hecs::Entity`, the handle of an entity in the ECS world, carried through
/// commands as an opaque value.
#[verifier::external_type_specification]
#[verifier::external_body]
pub struct ExEntity(hecs::Entity);

/// Marker of a player entity.
#[derive(Debug, Clone, Copy)]
pub struct Player;

/// The network id of a player entity.
#[derive(Debug, Clone, Copy)]
pub struct NetPlayerId(pub u32);

/// The id under which a dropped item is kept in the world item ledger.
#[derive(Debug, Clone, Copy, PartialEq, Eq, Structural)]
pub struct WorldItemId(pub u32);

/// Marker: the player's inventory changed and must be sent to its owner.
#[derive(Debug, Clone, Copy, Default)]
pub struct InventoryDirty;

/// Marker of an entity that a player can ride.
#[derive(Debug, Clone, Copy)]
pub struct Mountable;

/// Whether the world has been set up (terrain queued, players may spawn).
#[derive(Debug, Clone, Copy, Default)]
pub struct WorldInitialized(pub bool);

/// Progress of the one-shot terrain generation.
#[derive(Debug, Clone, Copy, Default)]
pub struct TerrainGeneration {
    pub complete: bool,
}

/// The seed of the world's terrain.
#[derive(Debug, Clone, Copy)]
pub struct WorldSeed(pub u32);

/// Calls `rand::random::<u32>()`, a value drawn from the thread-local
/// generator; nothing is claimed of it.
#[verifier::external_body]
fn random_u32() -> u32 {
    rand::random::<u32>()
}

impl WorldSeed {
    /// A seed drawn at random; any `u32` may come back.
    pub fn random() -> Self {
        WorldSeed(random_u32())
    }
}

pub const HOTBAR_SLOTS: usize = 9;
pub const MAIN_INVENTORY_SLOTS: usize = 27;
pub const INVENTORY_SLOTS: usize = HOTBAR_SLOTS + MAIN_INVENTORY_SLOTS;

/// A player's inventory: nine hotbar slots followed by 27 main slots, and the
/// hotbar slot that is selected.
#[derive(Debug, Clone, Copy)]
pub struct PlayerInventory {
    pub slots: [Option<ItemStack>; INVENTORY_SLOTS],
    pub selected_hotbar: u8,
}

/// An inventory whose selected slot indexes a slot (every inventory the game
/// builds selects a hotbar slot).
pub open spec fn selection_in_range(inv: PlayerInventory) -> bool {
    (inv.selected_hotbar as int) < INVENTORY_SLOTS
}

/// The stack in the selected slot.
pub open spec fn selected_stack(inv: PlayerInventory) -> Option<ItemStack> {
    inv.slots@[inv.selected_hotbar as int]
}

impl Default for PlayerInventory {
    fn default() -> (r: Self)
        ensures
            forall|i: int| 0 <= i < INVENTORY_SLOTS ==> #[trigger] r.slots@[i] is None,
            r.selected_hotbar == 0,
    {
        PlayerInventory { slots: [None; INVENTORY_SLOTS], selected_hotbar: 0 }
    }
}

impl PlayerInventory {
    /// An empty inventory with the given pickaxe in the second hotbar slot.
    pub fn starter_loadout(pickaxe_id: ToolId) -> (r: Self)
        ensures
            r.slots@[1] == Some(ItemStack { kind: ItemKind::Tool(pickaxe_id), count: 1 }),
            forall|i: int| 0 <= i < INVENTORY_SLOTS && i != 1 ==> #[trigger] r.slots@[i] is None,
            r.selected_hotbar == 0,
    {
        let mut slots: [Option<ItemStack>; INVENTORY_SLOTS] = [None; INVENTORY_SLOTS];
        slots[1] = Some(ItemStack::tool(pickaxe_id));
        PlayerInventory { slots, selected_hotbar: 0 }
    }

    /// The stack in the selected slot.
    pub fn active_stack(&self) -> (r: Option<ItemStack>)
        requires
            selection_in_range(*self),
        ensures
            r == selected_stack(*self),
    {
        self.slots[self.selected_hotbar as usize]
    }

    /// The tool in the selected slot, if it holds one.
    pub fn active_tool(&self) -> (r: Option<ToolId>)
        requires
            selection_in_range(*self),
        ensures
            r == (match selected_stack(*self) {
                Some(ItemStack { kind: ItemKind::Tool(id), .. }) => Some(id),
                _ => None,
            }),
    {
        match self.active_stack() {
            Some(stack) => match stack.kind {
                ItemKind::Tool(id) => Some(id),
                ItemKind::Block { .. } => None,
            },
            None => None,
        }
    }

    /// The block type and state in the selected slot, if it holds at least
    /// one block.
    pub fn active_block(&self) -> (r: Option<(BlockId, BlockState)>)
        requires
            selection_in_range(*self),
        ensures
            r == (match selected_stack(*self) {
                Some(ItemStack { kind: ItemKind::Block { id, state }, count }) => if count > 0 {
                    Some((id, state))
                } else {
                    None
                },
                _ => None,
            }),
    {
        match self.active_stack() {
            Some(stack) => match stack.kind {
                ItemKind::Block { id, state } => if stack.count > 0 {
                    Some((id, state))
                } else {
                    None
                },
                ItemKind::Tool(_) => None,
            },
            None => None,
        }
    }

    /// The stack in slot `index`; nothing for an index past the last slot.
    pub fn slot(&self, index: usize) -> (r: Option<ItemStack>)
        ensures
            r == (if index < INVENTORY_SLOTS {
                self.slots@[index as int]
            } else {
                None
            }),
    {
        if index < INVENTORY_SLOTS {
            self.slots[index]
        } else {
            None
        }
    }

    /// Puts `item` in slot `index`; an index past the last slot changes
    /// nothing.
    pub fn set_slot(&mut self, index: usize, item: Option<ItemStack>)
        ensures
            final(self).selected_hotbar == old(self).selected_hotbar,
            final(self).slots@ == (if index < INVENTORY_SLOTS {
                old(self).slots@.update(index as int, item)
            } else {
                old(self).slots@
            }),
    {
        if index < INVENTORY_SLOTS {
            self.slots[index] = item;
        }
    }

    /// The slot index of hotbar slot `hotbar`.
    pub fn hotbar_slot_index(hotbar: usize) -> (r: usize)
        ensures
            r == hotbar,
    {
        hotbar
    }

    /// The slot index of main-inventory slot `main`.
    pub fn main_slot_index(main: usize) -> (r: usize)
        requires
            main + HOTBAR_SLOTS <= usize::MAX,
        ensures
            r == HOTBAR_SLOTS + main,
    {
        HOTBAR_SLOTS + main
    }
}

} // verus!
