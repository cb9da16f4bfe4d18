use vstd::prelude::*;

use crate::components::{PlayerInventory, INVENTORY_SLOTS};
use crate::inventory::DropAmount;
use crate::item::{BlockState, ItemKind, ItemStack};

verus! {

/// Number of inventory slots on the wire.
pub const INVENTORY_SLOT_COUNT: usize = 36;

/// An item stack as the network protocol carries it. A tool travels without a
/// count: a tool stack is always one tool.
#[derive(Debug, Clone, Copy, PartialEq, Eq, Structural)]
pub enum ItemStackWire {
    Block { id: u16, state: u16, count: u16 },
    Tool { id: u16 },
}

/// A drop amount as the network protocol carries it.
#[derive(Debug, Clone, Copy, PartialEq, Eq, Structural)]
pub enum DropAmountWire {
    One,
    Half,
    All,
}

pub open spec fn stack_wire_of(stack: ItemStack) -> ItemStackWire {
    match stack.kind {
        ItemKind::Block { id, state } => ItemStackWire::Block { id, state: state.0, count: stack.count },
        ItemKind::Tool(id) => ItemStackWire::Tool { id },
    }
}

pub open spec fn stack_of_wire(wire: ItemStackWire) -> ItemStack {
    match wire {
        ItemStackWire::Block { id, state, count } => ItemStack {
            kind: ItemKind::Block { id, state: BlockState(state) },
            count,
        },
        ItemStackWire::Tool { id } => ItemStack { kind: ItemKind::Tool(id), count: 1 },
    }
}

pub open spec fn slot_wire_of(slot: Option<ItemStack>) -> Option<ItemStackWire> {
    match slot {
        Some(stack) => Some(stack_wire_of(stack)),
        None => None,
    }
}

pub open spec fn slot_of_wire(slot: Option<ItemStackWire>) -> Option<ItemStack> {
    match slot {
        Some(wire) => Some(stack_of_wire(wire)),
        None => None,
    }
}

/// The slots that a received slot list fills: the first 36 received slots,
/// and empty slots where fewer arrived.
pub open spec fn slots_of_wire(slots: Seq<Option<ItemStackWire>>) -> Seq<Option<ItemStack>> {
    Seq::new(
        INVENTORY_SLOT_COUNT as nat,
        |i: int|
            if i < slots.len() {
                slot_of_wire(slots[i])
            } else {
                None
            },
    )
}

pub open spec fn drop_amount_wire_of(amount: DropAmount) -> DropAmountWire {
    match amount {
        DropAmount::One => DropAmountWire::One,
        DropAmount::Half => DropAmountWire::Half,
        DropAmount::All => DropAmountWire::All,
    }
}

pub open spec fn drop_amount_of_wire(amount: DropAmountWire) -> DropAmount {
    match amount {
        DropAmountWire::One => DropAmount::One,
        DropAmountWire::Half => DropAmount::Half,
        DropAmountWire::All => DropAmount::All,
    }
}

pub fn stack_to_wire(stack: ItemStack) -> (r: ItemStackWire)
    ensures
        r == stack_wire_of(stack),
{
    match stack.kind {
        ItemKind::Block { id, state } => ItemStackWire::Block { id, state: state.0, count: stack.count },
        ItemKind::Tool(id) => ItemStackWire::Tool { id },
    }
}

pub fn stack_from_wire(wire: ItemStackWire) -> (r: ItemStack)
    ensures
        r == stack_of_wire(wire),
{
    match wire {
        ItemStackWire::Block { id, state, count } => ItemStack {
            kind: ItemKind::Block { id, state: BlockState(state) },
            count,
        },
        ItemStackWire::Tool { id } => ItemStack::tool(id),
    }
}

/// Every slot of the inventory, in order, in wire form.
pub fn inventory_to_wire(inventory: &PlayerInventory) -> (r: Vec<Option<ItemStackWire>>)
    ensures
        r@ == inventory.slots@.map_values(|slot: Option<ItemStack>| slot_wire_of(slot)),
{
    let mut out: Vec<Option<ItemStackWire>> = Vec::new();
    let mut index: usize = 0;
    while index < INVENTORY_SLOTS
        invariant
            index <= INVENTORY_SLOTS,
            inventory.slots@.len() == INVENTORY_SLOTS,
            out@ == inventory.slots@.take(index as int).map_values(
                |slot: Option<ItemStack>| slot_wire_of(slot),
            ),
        decreases INVENTORY_SLOTS - index,
    {
        let slot = match inventory.slots[index] {
            Some(stack) => Some(stack_to_wire(stack)),
            None => None,
        };
        out.push(slot);
        proof {
            assert(inventory.slots@.take(index + 1) =~= inventory.slots@.take(index as int).push(
                inventory.slots@[index as int],
            ));
        }
        index = index + 1;
    }
    proof {
        assert(inventory.slots@.take(INVENTORY_SLOTS as int) =~= inventory.slots@);
    }
    out
}

/// The inventory that a received slot list describes (see `slots_of_wire`),
/// with the selected slot clamped to the hotbar.
pub fn inventory_from_wire(slots: Vec<Option<ItemStackWire>>, selected: u8) -> (r: PlayerInventory)
    ensures
        r.slots@ == slots_of_wire(slots@),
        r.selected_hotbar == (if selected <= 8 {
            selected
        } else {
            8
        }),
{
    let mut out: [Option<ItemStack>; INVENTORY_SLOTS] = [None; INVENTORY_SLOTS];
    let n = if slots.len() < INVENTORY_SLOT_COUNT {
        slots.len()
    } else {
        INVENTORY_SLOT_COUNT
    };
    let mut index: usize = 0;
    while index < n
        invariant
            index <= n <= INVENTORY_SLOT_COUNT,
            n <= slots@.len(),
            out@.len() == INVENTORY_SLOTS,
            forall|i: int| 0 <= i < index ==> #[trigger] out@[i] == slot_of_wire(slots@[i]),
            forall|i: int| index <= i < INVENTORY_SLOTS ==> #[trigger] out@[i] is None,
        decreases n - index,
    {
        out[index] = match slots[index] {
            Some(wire) => Some(stack_from_wire(wire)),
            None => None,
        };
        index = index + 1;
    }
    proof {
        assert(out@ =~= slots_of_wire(slots@));
    }
    PlayerInventory {
        slots: out,
        selected_hotbar: if selected <= 8 {
            selected
        } else {
            8
        },
    }
}

pub fn drop_amount_to_wire(amount: DropAmount) -> (r: DropAmountWire)
    ensures
        r == drop_amount_wire_of(amount),
{
    match amount {
        DropAmount::One => DropAmountWire::One,
        DropAmount::Half => DropAmountWire::Half,
        DropAmount::All => DropAmountWire::All,
    }
}

pub fn drop_amount_from_wire(amount: DropAmountWire) -> (r: DropAmount)
    ensures
        r == drop_amount_of_wire(amount),
{
    match amount {
        DropAmountWire::One => DropAmount::One,
        DropAmountWire::Half => DropAmount::Half,
        DropAmountWire::All => DropAmount::All,
    }
}

/// A stack that survives the wire unchanged: any block stack, and a tool
/// stack of exactly one tool.
pub open spec fn wire_faithful(stack: ItemStack) -> bool {
    stack.kind is Block || stack.count == 1
}

/// Sending a stack and reading it back gives the same stack, for every stack
/// the wire can describe (a tool stack travels as one tool).
pub proof fn law_stack_wire_round_trip(stack: ItemStack)
    ensures
        wire_faithful(stack) ==> stack_of_wire(stack_wire_of(stack)) == stack,
        !wire_faithful(stack) ==> stack_of_wire(stack_wire_of(stack)) == (ItemStack {
            kind: stack.kind,
            count: 1,
        }),
{
}

/// Reading a wire stack and sending it again gives the same wire stack.
pub proof fn law_wire_stack_round_trip(wire: ItemStackWire)
    ensures
        stack_wire_of(stack_of_wire(wire)) == wire,
{
}

/// Drop amounts survive the wire both ways.
pub proof fn law_drop_amount_round_trip(amount: DropAmount, wire: DropAmountWire)
    ensures
        drop_amount_of_wire(drop_amount_wire_of(amount)) == amount,
        drop_amount_wire_of(drop_amount_of_wire(wire)) == wire,
{
}

/// Sending an inventory and rebuilding it from what was sent gives back the
/// same slots and selection, when the selection is a hotbar slot and every
/// tool stack holds one tool.
pub proof fn law_inventory_wire_round_trip(inventory: PlayerInventory)
    requires
        inventory.selected_hotbar <= 8,
        forall|i: int|
            0 <= i < INVENTORY_SLOTS ==> (#[trigger] inventory.slots@[i] matches Some(stack)
                ==> wire_faithful(stack)),
    ensures
        slots_of_wire(
            inventory.slots@.map_values(|slot: Option<ItemStack>| slot_wire_of(slot)),
        ) == inventory.slots@,
        (if inventory.selected_hotbar <= 8 {
            inventory.selected_hotbar
        } else {
            8
        }) == inventory.selected_hotbar,
{
    let sent = inventory.slots@.map_values(|slot: Option<ItemStack>| slot_wire_of(slot));
    assert forall|i: int| 0 <= i < INVENTORY_SLOTS implies #[trigger] slots_of_wire(sent)[i]
        == inventory.slots@[i] by {
        if let Some(stack) = inventory.slots@[i] {
            law_stack_wire_round_trip(stack);
        }
    }
    assert(slots_of_wire(sent) =~= inventory.slots@);
}

} // verus!
