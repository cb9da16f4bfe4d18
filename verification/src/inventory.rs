use vstd::prelude::*;

use crate::components::{
    selection_in_range, ExEntity, PlayerInventory, HOTBAR_SLOTS, INVENTORY_SLOTS,
};
use crate::item::{kinds_merge, BlockId, ItemKind, ItemStack, ToolId};

verus! {

/// Ticks before a stack dropped by breaking a block can be picked up.
pub const MINED_PICKUP_DELAY_TICKS: u8 = 10;
/// Ticks before a stack thrown by a player can be picked up.
pub const PLAYER_DROP_PICKUP_DELAY_TICKS: u8 = 40;

/// How much of a stack a drop command throws.
#[derive(Debug, Clone, Copy, PartialEq, Eq, Structural)]
pub enum DropAmount {
    One,
    Half,
    All,
}

/// What became of a stack offered to an inventory.
#[derive(Debug, Clone, Copy, PartialEq, Eq, Structural)]
pub enum InsertResult {
    Complete,
    Partial { remainder: ItemStack },
}

/// What a block's drop entry names, as the registries resolve the name: a
/// block type, a tool, or nothing either registry knows.
#[derive(Debug, Clone, Copy, PartialEq, Eq, Structural)]
pub enum DropTarget {
    Block(BlockId),
    Tool(ToolId),
    Unknown,
}

/// One entry of a block's drop table.
#[derive(Debug, Clone, Copy, PartialEq, Eq, Structural)]
pub struct BlockDrop {
    pub target: DropTarget,
    pub count: u16,
}

/// The stack one drop entry yields: a block stack of at least one block, a
/// single tool, or nothing for a name no registry knows.
pub open spec fn drop_stack(drop: BlockDrop) -> Option<ItemStack> {
    match drop.target {
        DropTarget::Block(id) => Some(
            ItemStack {
                kind: ItemKind::Block { id, state: crate::item::BlockState(0) },
                count: if drop.count >= 1 {
                    drop.count
                } else {
                    1
                },
            },
        ),
        DropTarget::Tool(id) => Some(ItemStack { kind: ItemKind::Tool(id), count: 1 }),
        DropTarget::Unknown => None,
    }
}

/// The stacks that the first `n` drop entries yield, in order.
pub open spec fn drop_stacks(drops: Seq<BlockDrop>, n: int) -> Seq<ItemStack>
    decreases n,
{
    if n <= 0 {
        Seq::empty()
    } else {
        match drop_stack(drops[n - 1]) {
            Some(stack) => drop_stacks(drops, n - 1).push(stack),
            None => drop_stacks(drops, n - 1),
        }
    }
}

/// What breaking block `block_id` drops: nothing unless it was harvested;
/// the block itself when its drop table is empty; otherwise the stacks its
/// table yields (see `drop_stack`), in order.
pub fn resolve_block_drops(block_id: BlockId, harvested: bool, drops: &Vec<BlockDrop>) -> (r: Vec<
    ItemStack,
>)
    ensures
        !harvested ==> r@.len() == 0,
        harvested && drops@.len() == 0 ==> r@ == seq![ItemStack::block_spec(block_id, 1)],
        harvested && drops@.len() > 0 ==> r@ == drop_stacks(drops@, drops@.len() as int),
{
    if !harvested {
        return Vec::new();
    }
    if drops.len() == 0 {
        let mut out = Vec::new();
        out.push(ItemStack::block(block_id, 1));
        return out;
    }
    let mut out: Vec<ItemStack> = Vec::new();
    let mut index: usize = 0;
    while index < drops.len()
        invariant
            index <= drops@.len(),
            out@ == drop_stacks(drops@, index as int),
        decreases drops.len() - index,
    {
        let drop = drops[index];
        match drop.target {
            DropTarget::Block(id) => {
                out.push(ItemStack::block(id, if drop.count >= 1 { drop.count } else { 1 }));
            },
            DropTarget::Tool(id) => {
                out.push(ItemStack::tool(id));
            },
            DropTarget::Unknown => {},
        }
        index = index + 1;
    }
    out
}

// ---------------------------------------------------------------------------
// The model: merging a stack into slots.
// ---------------------------------------------------------------------------

/// Merging `stack` into one slot holding `slot`: the slot takes as many items
/// as its stack limit leaves room for, when it holds the same kind; the first
/// component is the slot afterwards, the second what is left of `stack`.
pub open spec fn merge_slot(slot: Option<ItemStack>, stack: ItemStack, max_stack: u16) -> (
    Option<ItemStack>,
    ItemStack,
) {
    match slot {
        None => (slot, stack),
        Some(existing) => if !kinds_merge(existing.kind, stack.kind) || existing.count >= max_stack {
            (slot, stack)
        } else {
            let room = max_stack - existing.count;
            let moved = if stack.count <= room {
                stack.count as int
            } else {
                room
            };
            (
                Some(ItemStack { kind: stack.kind, count: (existing.count + moved) as u16 }),
                ItemStack { kind: stack.kind, count: (stack.count - moved) as u16 },
            )
        },
    }
}

/// Merging `stack` into the slots `lo..hi` in increasing order, passing over
/// slot `skip`, until nothing is left of it.
pub open spec fn merge_range(
    slots: Seq<Option<ItemStack>>,
    lo: int,
    hi: int,
    skip: int,
    stack: ItemStack,
    max_stack: u16,
) -> (Seq<Option<ItemStack>>, ItemStack)
    decreases hi - lo,
{
    if hi <= lo {
        (slots, stack)
    } else {
        let prev = merge_range(slots, lo, hi - 1, skip, stack, max_stack);
        if prev.1.count == 0 || hi - 1 == skip {
            prev
        } else {
            let step = merge_slot(prev.0[hi - 1], prev.1, max_stack);
            (prev.0.update(hi - 1, step.0), step.1)
        }
    }
}

/// The first empty slot among `lo..hi`.
pub open spec fn first_empty(slots: Seq<Option<ItemStack>>, lo: int, hi: int) -> Option<int>
    decreases hi - lo,
{
    if hi <= lo {
        None
    } else if slots[lo] is None {
        Some(lo)
    } else {
        first_empty(slots, lo + 1, hi)
    }
}

/// `stack` cut down to the stack limit.
pub open spec fn clamp_stack(stack: ItemStack, max_stack: u16) -> ItemStack {
    ItemStack {
        kind: stack.kind,
        count: if stack.count <= max_stack {
            stack.count
        } else {
            max_stack
        },
    }
}

/// Where an inserted stack goes: first into the selected slot, then into the
/// other hotbar slots, then into the main slots, each only as far as it holds
/// the same kind and has room; what is left goes whole into the first empty
/// hotbar slot, else the first empty main slot, else it is handed back.
pub open spec fn insert_outcome(
    slots: Seq<Option<ItemStack>>,
    selected: int,
    stack: ItemStack,
    max_stack: u16,
) -> (Seq<Option<ItemStack>>, InsertResult) {
    let s0 = clamp_stack(stack, max_stack);
    let first = merge_slot(slots[selected], s0, max_stack);
    let slots1 = slots.update(selected, first.0);
    if first.1.count == 0 {
        (slots1, InsertResult::Complete)
    } else {
        let hot = merge_range(slots1, 0, HOTBAR_SLOTS as int, selected, first.1, max_stack);
        if hot.1.count == 0 {
            (hot.0, InsertResult::Complete)
        } else {
            let main = merge_range(
                hot.0,
                HOTBAR_SLOTS as int,
                INVENTORY_SLOTS as int,
                INVENTORY_SLOTS as int,
                hot.1,
                max_stack,
            );
            if main.1.count == 0 {
                (main.0, InsertResult::Complete)
            } else {
                match first_empty(main.0, 0, HOTBAR_SLOTS as int) {
                    Some(i) => (main.0.update(i, Some(main.1)), InsertResult::Complete),
                    None => match first_empty(main.0, HOTBAR_SLOTS as int, INVENTORY_SLOTS as int) {
                        Some(i) => (main.0.update(i, Some(main.1)), InsertResult::Complete),
                        None => (main.0, InsertResult::Partial { remainder: main.1 }),
                    },
                }
            }
        }
    }
}

/// The slots that a quick move from `slot` sends its stack to: the main
/// slots for a hotbar slot, the hotbar for a main slot.
pub open spec fn quick_move_range(slot: int) -> (int, int) {
    if slot < HOTBAR_SLOTS as int {
        (HOTBAR_SLOTS as int, INVENTORY_SLOTS as int)
    } else {
        (0, HOTBAR_SLOTS as int)
    }
}

/// A quick move of the stack in `slot`: it merges into the other section of
/// the inventory as far as same-kind stacks there have room; what is left goes
/// whole into the first empty slot of that section. When nothing is left or it
/// found an empty slot, the source slot is emptied and the move succeeds;
/// otherwise what is left stays in the source slot and the move fails.
pub open spec fn quick_move_outcome(slots: Seq<Option<ItemStack>>, slot: int, max_stack: u16) -> (
    Seq<Option<ItemStack>>,
    bool,
) {
    let stack = slots[slot]->0;
    let range = quick_move_range(slot);
    let merged = merge_range(slots, range.0, range.1, INVENTORY_SLOTS as int, stack, max_stack);
    if merged.1.count == 0 {
        (merged.0.update(slot, None), true)
    } else {
        match first_empty(merged.0, range.0, range.1) {
            Some(i) => (merged.0.update(i, Some(merged.1)).update(slot, None), true),
            None => (merged.0.update(slot, Some(merged.1)), false),
        }
    }
}

/// Taking `amount` items from `slot`: it succeeds when the slot holds at least
/// that many (always, for nothing), and empties the slot when none is left.
pub open spec fn consume_outcome(slots: Seq<Option<ItemStack>>, slot: int, amount: u16) -> (
    Seq<Option<ItemStack>>,
    bool,
) {
    if amount == 0 {
        (slots, true)
    } else {
        match slots[slot] {
            None => (slots, false),
            Some(stack) => if stack.count < amount {
                (slots, false)
            } else if stack.count == amount {
                (slots.update(slot, None), true)
            } else {
                (
                    slots.update(
                        slot,
                        Some(ItemStack { kind: stack.kind, count: (stack.count - amount) as u16 }),
                    ),
                    true,
                )
            },
        }
    }
}

/// How many items a drop of `amount` throws from a stack of `count`: one (if
/// there is one), half rounded up, or all.
pub open spec fn drop_count(amount: DropAmount, count: u16) -> u16 {
    match amount {
        DropAmount::One => if count >= 1 {
            1
        } else {
            0
        },
        DropAmount::Half => ((count + 1) / 2) as u16,
        DropAmount::All => count,
    }
}

/// Throwing `amount` from `slot`: nothing for a slot past the last or an empty
/// slot; otherwise the thrown stack, the rest staying in the slot (which is
/// emptied when nothing is left).
pub open spec fn drop_outcome(slots: Seq<Option<ItemStack>>, slot: int, amount: DropAmount) -> (
    Seq<Option<ItemStack>>,
    Option<ItemStack>,
) {
    if slot >= INVENTORY_SLOTS as int {
        (slots, None)
    } else {
        match slots[slot] {
            None => (slots, None),
            Some(stack) => {
                let n = drop_count(amount, stack.count);
                (
                    slots.update(
                        slot,
                        if n == stack.count {
                            None
                        } else {
                            Some(ItemStack { kind: stack.kind, count: (stack.count - n) as u16 })
                        },
                    ),
                    Some(ItemStack { kind: stack.kind, count: n }),
                )
            },
        }
    }
}

/// A drop would overflow the stack count while halving it (a stack of
/// `u16::MAX` items); such a drop is not defined.
pub open spec fn drop_overflows(slots: Seq<Option<ItemStack>>, slot: int, amount: DropAmount) -> bool {
    &&& amount == DropAmount::Half
    &&& 0 <= slot < INVENTORY_SLOTS as int
    &&& slots[slot] matches Some(stack)
    &&& stack.count == u16::MAX
}

// ---------------------------------------------------------------------------
// Lemmas on the model.
// ---------------------------------------------------------------------------

proof fn lemma_merge_slot_empty_stack(slot: Option<ItemStack>, stack: ItemStack, max_stack: u16)
    requires
        stack.count == 0,
    ensures
        merge_slot(slot, stack, max_stack) == (slot, stack),
{
}

pub(crate) proof fn lemma_merge_range_len(
    slots: Seq<Option<ItemStack>>,
    lo: int,
    hi: int,
    skip: int,
    stack: ItemStack,
    max_stack: u16,
)
    requires
        0 <= lo,
        hi <= slots.len(),
    ensures
        merge_range(slots, lo, hi, skip, stack, max_stack).0.len() == slots.len(),
        merge_range(slots, lo, hi, skip, stack, max_stack).1.kind == stack.kind,
    decreases hi - lo,
{
    if hi > lo {
        lemma_merge_range_len(slots, lo, hi - 1, skip, stack, max_stack);
    }
}

/// Once nothing is left of the stack, merging over more slots changes nothing.
proof fn lemma_merge_range_done(
    slots: Seq<Option<ItemStack>>,
    lo: int,
    mid: int,
    hi: int,
    skip: int,
    stack: ItemStack,
    max_stack: u16,
)
    requires
        lo <= mid <= hi,
        merge_range(slots, lo, mid, skip, stack, max_stack).1.count == 0,
    ensures
        merge_range(slots, lo, hi, skip, stack, max_stack) == merge_range(
            slots,
            lo,
            mid,
            skip,
            stack,
            max_stack,
        ),
    decreases hi - mid,
{
    if hi > mid {
        lemma_merge_range_done(slots, lo, mid, hi - 1, skip, stack, max_stack);
    }
}

// ---------------------------------------------------------------------------
// Executable inventory operations.
// ---------------------------------------------------------------------------

/// Whether stacks `a` and `b` could be combined into one stack of at most
/// `max_stack` items (the limit for `a`'s kind).
pub fn stacks_fit_together(a: &ItemStack, b: &ItemStack, max_stack: u16) -> (r: bool)
    ensures
        r == (kinds_merge(a.kind, b.kind) && (if a.count + b.count <= u16::MAX {
            a.count + b.count
        } else {
            u16::MAX as int
        }) <= max_stack),
{
    if a.kind != b.kind {
        return false;
    }
    a.count.saturating_add(b.count) <= max_stack
}

/// Merges `stack` into slot `index` (see `merge_slot`) and returns what is
/// left of it.
fn merge_into_slot(
    inventory: &mut PlayerInventory,
    index: usize,
    stack: ItemStack,
    max_stack: u16,
) -> (r: ItemStack)
    requires
        index < INVENTORY_SLOTS,
    ensures
        final(inventory).selected_hotbar == old(inventory).selected_hotbar,
        final(inventory).slots@ == old(inventory).slots@.update(
            index as int,
            merge_slot(old(inventory).slots@[index as int], stack, max_stack).0,
        ),
        r == merge_slot(old(inventory).slots@[index as int], stack, max_stack).1,
{
    let existing = match inventory.slots[index] {
        Some(existing) => existing,
        None => {
            return stack;
        },
    };
    if existing.kind != stack.kind {
        return stack;
    }
    let room = max_stack.saturating_sub(existing.count);
    if room == 0 {
        return stack;
    }
    let moved = if stack.count <= room {
        stack.count
    } else {
        room
    };
    inventory.slots[index] = Some(ItemStack { kind: stack.kind, count: existing.count + moved });
    ItemStack { kind: stack.kind, count: stack.count - moved }
}

/// Merges `stack` into the slots `lo..hi`, passing over `skip`, until nothing
/// is left of it (see `merge_range`); returns what is left.
fn merge_into_range(
    inventory: &mut PlayerInventory,
    lo: usize,
    hi: usize,
    skip: usize,
    stack: ItemStack,
    max_stack: u16,
) -> (r: ItemStack)
    requires
        lo <= hi <= INVENTORY_SLOTS,
    ensures
        final(inventory).selected_hotbar == old(inventory).selected_hotbar,
        (final(inventory).slots@, r) == merge_range(
            old(inventory).slots@,
            lo as int,
            hi as int,
            skip as int,
            stack,
            max_stack,
        ),
{
    let ghost start = inventory.slots@;
    let mut rest = stack;
    let mut index = lo;
    while index < hi
        invariant
            lo <= index <= hi <= INVENTORY_SLOTS,
            inventory.selected_hotbar == old(inventory).selected_hotbar,
            start == old(inventory).slots@,
            (inventory.slots@, rest) == merge_range(
                start,
                lo as int,
                index as int,
                skip as int,
                stack,
                max_stack,
            ),
        decreases hi - index,
    {
        if index != skip {
            proof {
                if rest.count == 0 {
                    lemma_merge_slot_empty_stack(inventory.slots@[index as int], rest, max_stack);
                }
            }
            rest = merge_into_slot(inventory, index, rest, max_stack);
            proof {
                assert(inventory.slots@ =~= merge_range(
                    start,
                    lo as int,
                    index + 1,
                    skip as int,
                    stack,
                    max_stack,
                ).0);
            }
            if rest.count == 0 {
                proof {
                    lemma_merge_range_done(
                        start,
                        lo as int,
                        index + 1,
                        hi as int,
                        skip as int,
                        stack,
                        max_stack,
                    );
                }
                return rest;
            }
        }
        index = index + 1;
    }
    rest
}

/// The first empty slot among `lo..hi`.
fn first_empty_in(inventory: &PlayerInventory, lo: usize, hi: usize) -> (r: Option<usize>)
    requires
        lo <= hi <= INVENTORY_SLOTS,
    ensures
        match r {
            Some(i) => lo <= i < hi && first_empty(inventory.slots@, lo as int, hi as int) == Some(i as int),
            None => first_empty(inventory.slots@, lo as int, hi as int) is None,
        },
{
    let mut index = lo;
    while index < hi
        invariant
            lo <= index <= hi <= INVENTORY_SLOTS,
            first_empty(inventory.slots@, lo as int, hi as int) == first_empty(
                inventory.slots@,
                index as int,
                hi as int,
            ),
        decreases hi - index,
    {
        if inventory.slots[index].is_none() {
            return Some(index);
        }
        index = index + 1;
    }
    None
}

/// Offers `stack` to the inventory, at most `max_stack` (the stack limit of its
/// kind) of it: see `insert_outcome` for where the items go.
pub fn try_insert(inventory: &mut PlayerInventory, stack: ItemStack, max_stack: u16) -> (r:
    InsertResult)
    requires
        selection_in_range(*old(inventory)),
    ensures
        final(inventory).selected_hotbar == old(inventory).selected_hotbar,
        (final(inventory).slots@, r) == insert_outcome(
            old(inventory).slots@,
            old(inventory).selected_hotbar as int,
            stack,
            max_stack,
        ),
{
    let ghost start = inventory.slots@;
    let clamped = ItemStack {
        kind: stack.kind,
        count: if stack.count <= max_stack {
            stack.count
        } else {
            max_stack
        },
    };
    let selected = inventory.selected_hotbar as usize;
    let rest = merge_into_slot(inventory, selected, clamped, max_stack);
    if rest.count == 0 {
        return InsertResult::Complete;
    }
    let rest = merge_into_range(inventory, 0, HOTBAR_SLOTS, selected, rest, max_stack);
    if rest.count == 0 {
        return InsertResult::Complete;
    }
    let rest = merge_into_range(inventory, HOTBAR_SLOTS, INVENTORY_SLOTS, INVENTORY_SLOTS, rest, max_stack);
    if rest.count == 0 {
        return InsertResult::Complete;
    }
    if let Some(index) = first_empty_in(inventory, 0, HOTBAR_SLOTS) {
        inventory.slots[index] = Some(rest);
        return InsertResult::Complete;
    }
    if let Some(index) = first_empty_in(inventory, HOTBAR_SLOTS, INVENTORY_SLOTS) {
        inventory.slots[index] = Some(rest);
        return InsertResult::Complete;
    }
    InsertResult::Partial { remainder: rest }
}

/// Moves as much as it can of the stack in `slot` to the other section of the
/// inventory (see `quick_move_outcome`); a slot past the last or an empty slot
/// changes nothing and fails.
pub fn quick_move(inventory: &mut PlayerInventory, slot: u8, max_stack: u16) -> (r: bool)
    ensures
        final(inventory).selected_hotbar == old(inventory).selected_hotbar,
        (slot as int) < INVENTORY_SLOTS && old(inventory).slots@[slot as int] is Some ==> (
        final(inventory).slots@, r) == quick_move_outcome(
            old(inventory).slots@,
            slot as int,
            max_stack,
        ),
        !((slot as int) < INVENTORY_SLOTS && old(inventory).slots@[slot as int] is Some) ==> (
        final(inventory).slots@ == old(inventory).slots@ && !r),
{
    let slot = slot as usize;
    if slot >= INVENTORY_SLOTS {
        return false;
    }
    let stack = match inventory.slots[slot] {
        Some(stack) => stack,
        None => {
            return false;
        },
    };
    let (lo, hi) = if slot < HOTBAR_SLOTS {
        (HOTBAR_SLOTS, INVENTORY_SLOTS)
    } else {
        (0, HOTBAR_SLOTS)
    };
    let remaining = merge_into_range(inventory, lo, hi, INVENTORY_SLOTS, stack, max_stack);
    if remaining.count == 0 {
        inventory.slots[slot] = None;
        return true;
    }
    if let Some(index) = first_empty_in(inventory, lo, hi) {
        inventory.slots[index] = Some(remaining);
        inventory.slots[slot] = None;
        return true;
    }
    inventory.slots[slot] = Some(remaining);
    false
}

/// Exchanges the contents of slots `from` and `to`; an index past the last
/// slot changes nothing.
pub fn swap_slots(inventory: &mut PlayerInventory, from: u8, to: u8)
    ensures
        final(inventory).selected_hotbar == old(inventory).selected_hotbar,
        final(inventory).slots@ == (if (from as int) < INVENTORY_SLOTS && (to as int)
            < INVENTORY_SLOTS {
            old(inventory).slots@.update(from as int, old(inventory).slots@[to as int]).update(
                to as int,
                old(inventory).slots@[from as int],
            )
        } else {
            old(inventory).slots@
        }),
{
    let from = from as usize;
    let to = to as usize;
    if from >= INVENTORY_SLOTS || to >= INVENTORY_SLOTS {
        return ;
    }
    let a = inventory.slots[from];
    let b = inventory.slots[to];
    inventory.slots[from] = b;
    inventory.slots[to] = a;
}

/// Takes `amount` items from `slot` (see `consume_outcome`).
pub fn consume_from_slot(inventory: &mut PlayerInventory, slot: usize, amount: u16) -> (r: bool)
    requires
        amount == 0 || slot < INVENTORY_SLOTS,
    ensures
        final(inventory).selected_hotbar == old(inventory).selected_hotbar,
        (final(inventory).slots@, r) == consume_outcome(old(inventory).slots@, slot as int, amount),
{
    if amount == 0 {
        return true;
    }
    let stack = match inventory.slots[slot] {
        Some(stack) => stack,
        None => {
            return false;
        },
    };
    if stack.count < amount {
        return false;
    }
    let remaining = stack.count - amount;
    inventory.set_slot(
        slot,
        if remaining == 0 {
            None
        } else {
            Some(ItemStack { kind: stack.kind, count: remaining })
        },
    );
    true
}

/// Throws `amount` of the stack in `slot` (see `drop_outcome`) and returns the
/// thrown stack.
pub fn drop_from_slot(inventory: &mut PlayerInventory, slot: u8, amount: DropAmount) -> (r: Option<
    ItemStack,
>)
    requires
        !drop_overflows(old(inventory).slots@, slot as int, amount),
    ensures
        final(inventory).selected_hotbar == old(inventory).selected_hotbar,
        (final(inventory).slots@, r) == drop_outcome(old(inventory).slots@, slot as int, amount),
{
    let slot = slot as usize;
    if slot >= INVENTORY_SLOTS {
        return None;
    }
    let stack = match inventory.slots[slot] {
        Some(stack) => stack,
        None => {
            return None;
        },
    };
    let wanted: u16 = match amount {
        DropAmount::One => 1,
        DropAmount::All => stack.count,
        DropAmount::Half => (stack.count + 1) / 2,
    };
    let n = if wanted <= stack.count {
        wanted
    } else {
        stack.count
    };
    let (dropped, remainder) = stack.split(n);
    inventory.set_slot(slot, remainder);
    Some(dropped)
}

/// Selects the hotbar slot that the input asks for, the last one for any
/// larger number.
pub fn select_hotbar(inventory: &mut PlayerInventory, tool_slot: u8)
    ensures
        final(inventory).slots@ == old(inventory).slots@,
        final(inventory).selected_hotbar == (if tool_slot <= 8 {
            tool_slot
        } else {
            8
        }),
{
    inventory.selected_hotbar = if tool_slot <= 8 {
        tool_slot
    } else {
        8
    };
}

/// Puts the stack carried by the cursor (or nothing) in `slot` and returns what
/// the slot held; a slot past the last changes nothing and returns `None`.
pub fn swap_carried(inventory: &mut PlayerInventory, slot: u8, carried: Option<ItemStack>) -> (r:
    Option<Option<ItemStack>>)
    ensures
        final(inventory).selected_hotbar == old(inventory).selected_hotbar,
        (slot as int) < INVENTORY_SLOTS ==> r == Some(old(inventory).slots@[slot as int])
            && final(inventory).slots@ == old(inventory).slots@.update(slot as int, carried),
        (slot as int) >= INVENTORY_SLOTS ==> r is None && final(inventory).slots@ == old(
            inventory,
        ).slots@,
{
    let slot = slot as usize;
    if slot >= INVENTORY_SLOTS {
        return None;
    }
    let previous = inventory.slots[slot];
    inventory.slots[slot] = carried;
    Some(previous)
}

/// A request to change a player's inventory, queued by the input, pickup and
/// network systems and applied once per tick.
#[derive(Debug, Clone, Copy)]
pub enum InventoryCommand {
    Insert { player: hecs::Entity, stack: ItemStack, world_item: Option<hecs::Entity> },
    MoveSlot { player: hecs::Entity, from: u8, to: u8 },
    QuickMove { player: hecs::Entity, slot: u8 },
    Drop { player: hecs::Entity, slot: u8, amount: DropAmount },
    SwapCarried { player: hecs::Entity, slot: u8, carried: Option<ItemStack> },
}

/// The command that a player's drop input asks for: throwing `amount` from
/// the selected hotbar slot; none without a drop input.
pub fn hotbar_drop_command(player: hecs::Entity, inventory: &PlayerInventory, amount: Option<DropAmount>) -> (r:
    Option<InventoryCommand>)
    ensures
        r == match amount {
            Some(a) => Some(
                InventoryCommand::Drop { player, slot: inventory.selected_hotbar, amount: a },
            ),
            None => None,
        },
{
    match amount {
        Some(a) => Some(InventoryCommand::Drop { player, slot: inventory.selected_hotbar, amount: a }),
        None => None,
    }
}

/// The commands queued this tick, in arrival order.
#[derive(Debug, Default)]
pub struct InventoryCommandQueue {
    pub commands: Vec<InventoryCommand>,
}

impl InventoryCommandQueue {
    pub fn push(&mut self, command: InventoryCommand)
        ensures
            final(self).commands@ == old(self).commands@.push(command),
    {
        self.commands.push(command);
    }

    /// Hands out every queued command, in order, and leaves the queue empty.
    pub fn drain(&mut self) -> (r: Vec<InventoryCommand>)
        ensures
            r@ == old(self).commands@,
            final(self).commands@.len() == 0,
    {
        let mut out: Vec<InventoryCommand> = Vec::new();
        core::mem::swap(&mut out, &mut self.commands);
        out
    }
}

/// What applying one command did to the inventory: whether the player must be
/// sent it again, how an insert ended, and the stack a drop threw.
#[derive(Debug, Clone, Copy, PartialEq, Eq, Structural)]
pub struct CommandEffect {
    pub dirty: bool,
    pub inserted: Option<InsertResult>,
    pub dropped: Option<ItemStack>,
}

/// The stack limit that a command needs: that of the inserted stack's kind,
/// or of the kind in the quick-moved slot; the other commands merge nothing.
pub open spec fn command_merges(command: InventoryCommand) -> bool {
    command is Insert || command is QuickMove
}

/// Applies `command` to the player's inventory. `max_stack` is the stack limit
/// of the kind that the command merges (see `command_merges`). Inserts and slot
/// moves always dirty the inventory; a quick move and a drop when they did
/// something; a carried-stack swap when the slot exists.
pub fn apply_inventory_command(
    inventory: &mut PlayerInventory,
    command: &InventoryCommand,
    max_stack: u16,
) -> (r: CommandEffect)
    requires
        selection_in_range(*old(inventory)),
        *command matches InventoryCommand::Drop { slot, amount, .. } ==> !drop_overflows(
            old(inventory).slots@,
            slot as int,
            amount,
        ),
    ensures
        final(inventory).selected_hotbar == old(inventory).selected_hotbar,
        match *command {
            InventoryCommand::Insert { stack, .. } => {
                let o = insert_outcome(
                    old(inventory).slots@,
                    old(inventory).selected_hotbar as int,
                    stack,
                    max_stack,
                );
                &&& final(inventory).slots@ == o.0
                &&& r == (CommandEffect { dirty: true, inserted: Some(o.1), dropped: None })
            },
            InventoryCommand::MoveSlot { from, to, .. } => {
                &&& final(inventory).slots@ == (if (from as int) < INVENTORY_SLOTS && (to as int)
                    < INVENTORY_SLOTS {
                    old(inventory).slots@.update(from as int, old(inventory).slots@[to as int]).update(
                        to as int,
                        old(inventory).slots@[from as int],
                    )
                } else {
                    old(inventory).slots@
                })
                &&& r == (CommandEffect { dirty: true, inserted: None, dropped: None })
            },
            InventoryCommand::QuickMove { slot, .. } => if (slot as int) < INVENTORY_SLOTS
                && old(inventory).slots@[slot as int] is Some {
                let o = quick_move_outcome(old(inventory).slots@, slot as int, max_stack);
                &&& final(inventory).slots@ == o.0
                &&& r == (CommandEffect { dirty: o.1, inserted: None, dropped: None })
            } else {
                &&& final(inventory).slots@ == old(inventory).slots@
                &&& r == (CommandEffect { dirty: false, inserted: None, dropped: None })
            },
            InventoryCommand::Drop { slot, amount, .. } => {
                let o = drop_outcome(old(inventory).slots@, slot as int, amount);
                &&& final(inventory).slots@ == o.0
                &&& r == (CommandEffect { dirty: o.1 is Some, inserted: None, dropped: o.1 })
            },
            InventoryCommand::SwapCarried { slot, carried, .. } => {
                &&& final(inventory).slots@ == (if (slot as int) < INVENTORY_SLOTS {
                    old(inventory).slots@.update(slot as int, carried)
                } else {
                    old(inventory).slots@
                })
                &&& r == (CommandEffect {
                    dirty: (slot as int) < INVENTORY_SLOTS,
                    inserted: None,
                    dropped: None,
                })
            },
        },
{
    match command {
        InventoryCommand::Insert { stack, .. } => {
            let result = try_insert(inventory, *stack, max_stack);
            CommandEffect { dirty: true, inserted: Some(result), dropped: None }
        },
        InventoryCommand::MoveSlot { from, to, .. } => {
            swap_slots(inventory, *from, *to);
            CommandEffect { dirty: true, inserted: None, dropped: None }
        },
        InventoryCommand::QuickMove { slot, .. } => {
            let changed = quick_move(inventory, *slot, max_stack);
            CommandEffect { dirty: changed, inserted: None, dropped: None }
        },
        InventoryCommand::Drop { slot, amount, .. } => {
            let dropped = drop_from_slot(inventory, *slot, *amount);
            CommandEffect { dirty: dropped.is_some(), inserted: None, dropped }
        },
        InventoryCommand::SwapCarried { slot, carried, .. } => {
            let replaced = swap_carried(inventory, *slot, *carried);
            CommandEffect { dirty: replaced.is_some(), inserted: None, dropped: None }
        },
    }
}

} // verus!
