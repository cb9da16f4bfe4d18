use vstd::prelude::*;

use crate::components::{HOTBAR_SLOTS, INVENTORY_SLOTS};
use crate::inventory::{
    clamp_stack, consume_outcome, drop_outcome, first_empty, insert_outcome, merge_range,
    merge_slot, quick_move_outcome, quick_move_range, DropAmount, InsertResult,
};
use crate::item::{ItemKind, ItemStack};

verus! {

/// How many items of `kind` a slot holds.
pub open spec fn slot_count(slot: Option<ItemStack>, kind: ItemKind) -> int {
    match slot {
        Some(stack) => if stack.kind == kind {
            stack.count as int
        } else {
            0
        },
        None => 0,
    }
}

/// How many items of `kind` the slots hold together.
pub open spec fn count_of_kind(slots: Seq<Option<ItemStack>>, kind: ItemKind) -> int
    decreases slots.len(),
{
    if slots.len() == 0 {
        0
    } else {
        count_of_kind(slots.drop_last(), kind) + slot_count(slots.last(), kind)
    }
}

/// How many items of `kind` an insert handed back.
pub open spec fn remainder_count(result: InsertResult, kind: ItemKind) -> int {
    match result {
        InsertResult::Complete => 0,
        InsertResult::Partial { remainder } => slot_count(Some(remainder), kind),
    }
}

proof fn lemma_count_update(
    slots: Seq<Option<ItemStack>>,
    i: int,
    v: Option<ItemStack>,
    kind: ItemKind,
)
    requires
        0 <= i < slots.len(),
    ensures
        count_of_kind(slots.update(i, v), kind) == count_of_kind(slots, kind) - slot_count(
            slots[i],
            kind,
        ) + slot_count(v, kind),
    decreases slots.len(),
{
    let u = slots.update(i, v);
    if i == slots.len() - 1 {
        assert(u.drop_last() =~= slots.drop_last());
    } else {
        assert(u.drop_last() =~= slots.drop_last().update(i, v));
        lemma_count_update(slots.drop_last(), i, v, kind);
    }
}

proof fn lemma_merge_slot_conserves(
    slot: Option<ItemStack>,
    stack: ItemStack,
    max_stack: u16,
    kind: ItemKind,
)
    ensures
        slot_count(merge_slot(slot, stack, max_stack).0, kind) + slot_count(
            Some(merge_slot(slot, stack, max_stack).1),
            kind,
        ) == slot_count(slot, kind) + slot_count(Some(stack), kind),
        merge_slot(slot, stack, max_stack).1.kind == stack.kind,
        merge_slot(slot, stack, max_stack).1.count <= stack.count,
        slot is Some ==> merge_slot(slot, stack, max_stack).0 is Some,
        slot is None ==> merge_slot(slot, stack, max_stack).0 is None,
{
}

proof fn lemma_merge_range_conserves(
    slots: Seq<Option<ItemStack>>,
    lo: int,
    hi: int,
    skip: int,
    stack: ItemStack,
    max_stack: u16,
    kind: ItemKind,
)
    requires
        0 <= lo,
        hi <= slots.len(),
    ensures
        ({
            let r = merge_range(slots, lo, hi, skip, stack, max_stack);
            &&& r.0.len() == slots.len()
            &&& count_of_kind(r.0, kind) + slot_count(Some(r.1), kind) == count_of_kind(slots, kind)
                + slot_count(Some(stack), kind)
            &&& r.1.kind == stack.kind
            &&& forall|j: int| 0 <= j < slots.len() ==> (#[trigger] r.0[j] is None <==> slots[j] is None)
        }),
    decreases hi - lo,
{
    if hi > lo {
        lemma_merge_range_conserves(slots, lo, hi - 1, skip, stack, max_stack, kind);
        let prev = merge_range(slots, lo, hi - 1, skip, stack, max_stack);
        if !(prev.1.count == 0 || hi - 1 == skip) {
            let step = merge_slot(prev.0[hi - 1], prev.1, max_stack);
            lemma_merge_slot_conserves(prev.0[hi - 1], prev.1, max_stack, kind);
            lemma_count_update(prev.0, hi - 1, step.0, kind);
        }
    }
}

proof fn lemma_first_empty(slots: Seq<Option<ItemStack>>, lo: int, hi: int)
    requires
        0 <= lo,
        hi <= slots.len(),
    ensures
        match first_empty(slots, lo, hi) {
            Some(i) => lo <= i < hi && slots[i] is None,
            None => forall|j: int| lo <= j < hi ==> #[trigger] slots[j] is Some,
        },
    decreases hi - lo,
{
    if hi > lo && slots[lo] is Some {
        lemma_first_empty(slots, lo + 1, hi);
    }
}

/// Inserting never creates nor destroys items: for every kind, what the
/// inventory holds afterwards plus what was handed back equals what it held
/// before plus what was offered (cut down to the stack limit).
pub proof fn law_insert_conserves_items(
    slots: Seq<Option<ItemStack>>,
    selected: int,
    stack: ItemStack,
    max_stack: u16,
    kind: ItemKind,
)
    requires
        slots.len() == INVENTORY_SLOTS,
        0 <= selected < INVENTORY_SLOTS,
    ensures
        ({
            let o = insert_outcome(slots, selected, stack, max_stack);
            count_of_kind(o.0, kind) + remainder_count(o.1, kind) == count_of_kind(slots, kind)
                + slot_count(Some(clamp_stack(stack, max_stack)), kind)
        }),
{
    let s0 = clamp_stack(stack, max_stack);
    let first = merge_slot(slots[selected], s0, max_stack);
    let slots1 = slots.update(selected, first.0);
    lemma_merge_slot_conserves(slots[selected], s0, max_stack, kind);
    lemma_count_update(slots, selected, first.0, kind);
    if first.1.count != 0 {
        let hot = merge_range(slots1, 0, HOTBAR_SLOTS as int, selected, first.1, max_stack);
        lemma_merge_range_conserves(slots1, 0, HOTBAR_SLOTS as int, selected, first.1, max_stack, kind);
        if hot.1.count != 0 {
            let main = merge_range(
                hot.0,
                HOTBAR_SLOTS as int,
                INVENTORY_SLOTS as int,
                INVENTORY_SLOTS as int,
                hot.1,
                max_stack,
            );
            lemma_merge_range_conserves(
                hot.0,
                HOTBAR_SLOTS as int,
                INVENTORY_SLOTS as int,
                INVENTORY_SLOTS as int,
                hot.1,
                max_stack,
                kind,
            );
            if main.1.count != 0 {
                lemma_first_empty(main.0, 0, HOTBAR_SLOTS as int);
                lemma_first_empty(main.0, HOTBAR_SLOTS as int, INVENTORY_SLOTS as int);
                match first_empty(main.0, 0, HOTBAR_SLOTS as int) {
                    Some(i) => {
                        lemma_count_update(main.0, i, Some(main.1), kind);
                    },
                    None => match first_empty(
                        main.0,
                        HOTBAR_SLOTS as int,
                        INVENTORY_SLOTS as int,
                    ) {
                        Some(i) => {
                            lemma_count_update(main.0, i, Some(main.1), kind);
                        },
                        None => {},
                    },
                }
            }
        }
    }
}

/// An insert hands items back only when every slot is taken.
pub proof fn law_insert_partial_only_when_full(
    slots: Seq<Option<ItemStack>>,
    selected: int,
    stack: ItemStack,
    max_stack: u16,
)
    requires
        slots.len() == INVENTORY_SLOTS,
        0 <= selected < INVENTORY_SLOTS,
        insert_outcome(slots, selected, stack, max_stack).1 is Partial,
    ensures
        forall|j: int|
            0 <= j < INVENTORY_SLOTS ==> #[trigger] insert_outcome(
                slots,
                selected,
                stack,
                max_stack,
            ).0[j] is Some,
{
    let s0 = clamp_stack(stack, max_stack);
    let first = merge_slot(slots[selected], s0, max_stack);
    let slots1 = slots.update(selected, first.0);
    let kind = stack.kind;
    let hot = merge_range(slots1, 0, HOTBAR_SLOTS as int, selected, first.1, max_stack);
    lemma_merge_range_conserves(slots1, 0, HOTBAR_SLOTS as int, selected, first.1, max_stack, kind);
    let main = merge_range(
        hot.0,
        HOTBAR_SLOTS as int,
        INVENTORY_SLOTS as int,
        INVENTORY_SLOTS as int,
        hot.1,
        max_stack,
    );
    lemma_merge_range_conserves(
        hot.0,
        HOTBAR_SLOTS as int,
        INVENTORY_SLOTS as int,
        INVENTORY_SLOTS as int,
        hot.1,
        max_stack,
        kind,
    );
    lemma_first_empty(main.0, 0, HOTBAR_SLOTS as int);
    lemma_first_empty(main.0, HOTBAR_SLOTS as int, INVENTORY_SLOTS as int);
}

/// A quick move never creates nor destroys items, whether or not it succeeds.
pub proof fn law_quick_move_conserves_items(
    slots: Seq<Option<ItemStack>>,
    slot: int,
    max_stack: u16,
    kind: ItemKind,
)
    requires
        slots.len() == INVENTORY_SLOTS,
        0 <= slot < INVENTORY_SLOTS,
        slots[slot] is Some,
    ensures
        count_of_kind(quick_move_outcome(slots, slot, max_stack).0, kind) == count_of_kind(
            slots,
            kind,
        ),
{
    let stack = slots[slot]->0;
    let range = quick_move_range(slot);
    let merged = merge_range(slots, range.0, range.1, INVENTORY_SLOTS as int, stack, max_stack);
    lemma_merge_range_conserves(
        slots,
        range.0,
        range.1,
        INVENTORY_SLOTS as int,
        stack,
        max_stack,
        kind,
    );
    // The source slot lies outside the target range, so merging left it alone.
    assert(merged.0[slot] == slots[slot]) by {
        lemma_merge_range_keeps_outside(
            slots,
            range.0,
            range.1,
            INVENTORY_SLOTS as int,
            stack,
            max_stack,
            slot,
        );
    }
    if merged.1.count == 0 {
        lemma_count_update(merged.0, slot, None, kind);
    } else {
        lemma_first_empty(merged.0, range.0, range.1);
        match first_empty(merged.0, range.0, range.1) {
            Some(i) => {
                let placed = merged.0.update(i, Some(merged.1));
                lemma_count_update(merged.0, i, Some(merged.1), kind);
                lemma_count_update(placed, slot, None, kind);
            },
            None => {
                lemma_count_update(merged.0, slot, Some(merged.1), kind);
            },
        }
    }
}

proof fn lemma_merge_range_keeps_outside(
    slots: Seq<Option<ItemStack>>,
    lo: int,
    hi: int,
    skip: int,
    stack: ItemStack,
    max_stack: u16,
    j: int,
)
    requires
        0 <= lo,
        hi <= slots.len(),
        0 <= j < slots.len(),
        j < lo || j >= hi,
    ensures
        merge_range(slots, lo, hi, skip, stack, max_stack).0[j] == slots[j],
    decreases hi - lo,
{
    if hi > lo {
        lemma_merge_range_keeps_outside(slots, lo, hi - 1, skip, stack, max_stack, j);
        crate::inventory::lemma_merge_range_len(slots, lo, hi - 1, skip, stack, max_stack);
    }
}

/// Taking items from a slot removes exactly that many items of its kind when
/// it succeeds, and changes nothing when it fails.
pub proof fn law_consume_removes_exactly(
    slots: Seq<Option<ItemStack>>,
    slot: int,
    amount: u16,
    kind: ItemKind,
)
    requires
        slots.len() == INVENTORY_SLOTS,
        0 <= slot < INVENTORY_SLOTS,
    ensures
        ({
            let o = consume_outcome(slots, slot, amount);
            &&& !o.1 ==> o.0 == slots
            &&& o.1 && amount > 0 ==> count_of_kind(o.0, kind) == count_of_kind(slots, kind) - (
            if slots[slot]->0.kind == kind {
                amount as int
            } else {
                0
            })
            &&& o.1 ==> (amount == 0 || (slots[slot] is Some && slots[slot]->0.count >= amount))
        }),
{
    let o = consume_outcome(slots, slot, amount);
    if amount != 0 && o.1 {
        lemma_count_update(slots, slot, o.0[slot], kind);
        assert(o.0 == slots.update(slot, o.0[slot]));
    }
}

/// A drop never creates nor destroys items: the thrown stack plus what stays
/// in the inventory is what the inventory held.
pub proof fn law_drop_conserves_items(
    slots: Seq<Option<ItemStack>>,
    slot: int,
    amount: DropAmount,
    kind: ItemKind,
)
    requires
        slots.len() == INVENTORY_SLOTS,
        0 <= slot,
        !crate::inventory::drop_overflows(slots, slot, amount),
    ensures
        ({
            let o = drop_outcome(slots, slot, amount);
            count_of_kind(o.0, kind) + slot_count(o.1, kind) == count_of_kind(slots, kind)
        }),
{
    let o = drop_outcome(slots, slot, amount);
    if slot < INVENTORY_SLOTS && slots[slot] is Some {
        lemma_count_update(slots, slot, o.0[slot], kind);
        assert(o.0 == slots.update(slot, o.0[slot]));
    }
}

/// How much each drop throws, for a slot holding `n` items (fewer than
/// `u16::MAX` for a half drop): one throws one item and keeps `n - 1`; half
/// throws half rounded up and keeps half rounded down; all throws the whole
/// stack. The slot is emptied exactly when nothing is kept, and the thrown
/// stack is of the slot's kind.
pub proof fn law_drop_amounts(slots: Seq<Option<ItemStack>>, slot: int, amount: DropAmount)
    requires
        slots.len() == INVENTORY_SLOTS,
        0 <= slot < INVENTORY_SLOTS,
        slots[slot] matches Some(stack) && stack.count >= 1,
        !crate::inventory::drop_overflows(slots, slot, amount),
    ensures
        ({
            let stack = slots[slot]->0;
            let n = stack.count as int;
            let o = drop_outcome(slots, slot, amount);
            let thrown = o.1->0.count as int;
            let kept = n - thrown;
            &&& o.1 is Some
            &&& o.1->0.kind == stack.kind
            &&& amount == DropAmount::One ==> thrown == 1
            &&& amount == DropAmount::Half ==> 2 * thrown == n || 2 * thrown == n + 1
            &&& amount == DropAmount::Half ==> 2 * kept == n || 2 * kept == n - 1
            &&& amount == DropAmount::All ==> thrown == n
            &&& kept == 0 ==> o.0[slot] is None
            &&& kept > 0 ==> o.0[slot] == Some(ItemStack { kind: stack.kind, count: kept as u16 })
            &&& forall|m: int| 0 <= m < slots.len() && m != slot ==> #[trigger] o.0[m] == slots[m]
        }),
{
    let stack = slots[slot]->0;
    let n = stack.count as int;
    if amount == DropAmount::Half {
        assert(2 * ((n + 1) / 2) == n || 2 * ((n + 1) / 2) == n + 1) by (nonlinear_arith)
            requires n >= 1;
    }
}

/// After merging `stack` over `lo..hi` (passing over `skip`) with something
/// left, every slot there that holds the stack's kind is at the stack limit.
proof fn lemma_merge_range_fills(
    slots: Seq<Option<ItemStack>>,
    lo: int,
    hi: int,
    skip: int,
    stack: ItemStack,
    max_stack: u16,
)
    requires
        0 <= lo,
        hi <= slots.len(),
        merge_range(slots, lo, hi, skip, stack, max_stack).1.count > 0,
    ensures
        forall|m: int|
            lo <= m < hi && m != skip ==> (#[trigger] merge_range(slots, lo, hi, skip, stack, max_stack).0[m]
                matches Some(s) ==> s.kind == stack.kind ==> s.count >= max_stack),
    decreases hi - lo,
{
    if hi > lo {
        let prev = merge_range(slots, lo, hi - 1, skip, stack, max_stack);
        crate::inventory::lemma_merge_range_len(slots, lo, hi - 1, skip, stack, max_stack);
        if prev.1.count > 0 {
            lemma_merge_range_fills(slots, lo, hi - 1, skip, stack, max_stack);
        }
    }
}

/// Merging leaves the slot it passes over as it was.
proof fn lemma_merge_range_keeps_skip(
    slots: Seq<Option<ItemStack>>,
    lo: int,
    hi: int,
    skip: int,
    stack: ItemStack,
    max_stack: u16,
)
    requires
        0 <= lo,
        hi <= slots.len(),
        0 <= skip < slots.len(),
    ensures
        merge_range(slots, lo, hi, skip, stack, max_stack).0[skip] == slots[skip],
    decreases hi - lo,
{
    if hi > lo {
        lemma_merge_range_keeps_skip(slots, lo, hi - 1, skip, stack, max_stack);
        crate::inventory::lemma_merge_range_len(slots, lo, hi - 1, skip, stack, max_stack);
    }
}

/// Merging never fills an empty slot.
proof fn lemma_merge_range_keeps_empty(
    slots: Seq<Option<ItemStack>>,
    lo: int,
    hi: int,
    skip: int,
    stack: ItemStack,
    max_stack: u16,
    j: int,
)
    requires
        0 <= lo,
        hi <= slots.len(),
        0 <= j < slots.len(),
        slots[j] is None,
    ensures
        merge_range(slots, lo, hi, skip, stack, max_stack).0[j] is None,
    decreases hi - lo,
{
    if hi > lo {
        lemma_merge_range_keeps_empty(slots, lo, hi - 1, skip, stack, max_stack, j);
        crate::inventory::lemma_merge_range_len(slots, lo, hi - 1, skip, stack, max_stack);
    }
}

/// An insert never opens a new stack while a stack of the same kind has room:
/// when it puts what is left into a slot that was empty, every other slot
/// holding that kind is at the stack limit.
pub proof fn law_insert_tops_up_before_new_stack(
    slots: Seq<Option<ItemStack>>,
    selected: int,
    stack: ItemStack,
    max_stack: u16,
)
    requires
        slots.len() == INVENTORY_SLOTS,
        0 <= selected < INVENTORY_SLOTS,
    ensures
        ({
            let out = insert_outcome(slots, selected, stack, max_stack).0;
            forall|k: int, m: int|
                0 <= k < INVENTORY_SLOTS && 0 <= m < INVENTORY_SLOTS && k != m && slots[k] is None
                    && #[trigger] out[k] is Some ==> (#[trigger] out[m] matches Some(s) ==> s.kind
                    == stack.kind ==> s.count >= max_stack)
        }),
{
    let out = insert_outcome(slots, selected, stack, max_stack).0;
    let s0 = clamp_stack(stack, max_stack);
    let first = merge_slot(slots[selected], s0, max_stack);
    let slots1 = slots.update(selected, first.0);
    if first.1.count == 0 {
        assert forall|k: int, m: int|
            0 <= k < INVENTORY_SLOTS && 0 <= m < INVENTORY_SLOTS && k != m && slots[k] is None
                && #[trigger] out[k] is Some implies (#[trigger] out[m] matches Some(s) ==> s.kind
                == stack.kind ==> s.count >= max_stack) by {
            assert(out == slots1);
        }
        return;
    }
    let hot = merge_range(slots1, 0, HOTBAR_SLOTS as int, selected, first.1, max_stack);
    crate::inventory::lemma_merge_range_len(slots1, 0, HOTBAR_SLOTS as int, selected, first.1, max_stack);
    if hot.1.count == 0 {
        assert forall|k: int, m: int|
            0 <= k < INVENTORY_SLOTS && 0 <= m < INVENTORY_SLOTS && k != m && slots[k] is None
                && #[trigger] out[k] is Some implies (#[trigger] out[m] matches Some(s) ==> s.kind
                == stack.kind ==> s.count >= max_stack) by {
            assert(slots1[k] is None);
            lemma_merge_range_keeps_empty(slots1, 0, HOTBAR_SLOTS as int, selected, first.1, max_stack, k);
        }
        return;
    }
    let main = merge_range(
        hot.0,
        HOTBAR_SLOTS as int,
        INVENTORY_SLOTS as int,
        INVENTORY_SLOTS as int,
        hot.1,
        max_stack,
    );
    crate::inventory::lemma_merge_range_len(
        hot.0,
        HOTBAR_SLOTS as int,
        INVENTORY_SLOTS as int,
        INVENTORY_SLOTS as int,
        hot.1,
        max_stack,
    );
    lemma_merge_range_fills(slots1, 0, HOTBAR_SLOTS as int, selected, first.1, max_stack);
    if main.1.count > 0 {
        lemma_merge_range_fills(
            hot.0,
            HOTBAR_SLOTS as int,
            INVENTORY_SLOTS as int,
            INVENTORY_SLOTS as int,
            hot.1,
            max_stack,
        );
    }
    assert forall|k: int, m: int|
        0 <= k < INVENTORY_SLOTS && 0 <= m < INVENTORY_SLOTS && k != m && slots[k] is None
            && #[trigger] out[k] is Some implies (#[trigger] out[m] matches Some(s) ==> s.kind
            == stack.kind ==> s.count >= max_stack) by {
        assert(slots1[k] is None);
        lemma_merge_range_keeps_empty(slots1, 0, HOTBAR_SLOTS as int, selected, first.1, max_stack, k);
        lemma_merge_range_keeps_empty(
            hot.0,
            HOTBAR_SLOTS as int,
            INVENTORY_SLOTS as int,
            INVENTORY_SLOTS as int,
            hot.1,
            max_stack,
            k,
        );
        if main.1.count == 0 {
            assert(out == main.0);
        } else {
            // `out` is `main.0` with the leftover put into the first empty slot
            // found, which must be `k`; every other slot is as `main.0` has it.
            lemma_first_empty(main.0, 0, HOTBAR_SLOTS as int);
            lemma_first_empty(main.0, HOTBAR_SLOTS as int, INVENTORY_SLOTS as int);
            match first_empty(main.0, 0, HOTBAR_SLOTS as int) {
                Some(i) => {
                    assert(out == main.0.update(i, Some(main.1)));
                },
                None => match first_empty(main.0, HOTBAR_SLOTS as int, INVENTORY_SLOTS as int) {
                    Some(i) => {
                        assert(out == main.0.update(i, Some(main.1)));
                    },
                    None => {
                        assert(out == main.0);
                    },
                },
            }
            assert(out[m] == main.0[m]);
            if m < HOTBAR_SLOTS as int {
                lemma_merge_range_keeps_outside(
                    hot.0,
                    HOTBAR_SLOTS as int,
                    INVENTORY_SLOTS as int,
                    INVENTORY_SLOTS as int,
                    hot.1,
                    max_stack,
                    m,
                );
                if m == selected {
                    lemma_merge_range_keeps_skip(slots1, 0, HOTBAR_SLOTS as int, selected, first.1, max_stack);
                    assert(hot.0[m] == slots1[m]);
                }
            }
        }
    }
}

/// Exchanging two slots twice restores the inventory, and an exchange keeps
/// every kind's item count.
pub proof fn law_swap_twice_restores(slots: Seq<Option<ItemStack>>, from: int, to: int, kind: ItemKind)
    requires
        slots.len() == INVENTORY_SLOTS,
        0 <= from < INVENTORY_SLOTS,
        0 <= to < INVENTORY_SLOTS,
    ensures
        ({
            let once = slots.update(from, slots[to]).update(to, slots[from]);
            &&& once.update(from, once[to]).update(to, once[from]) == slots
            &&& count_of_kind(once, kind) == count_of_kind(slots, kind)
        }),
{
    let mid = slots.update(from, slots[to]);
    let once = mid.update(to, slots[from]);
    assert(once.update(from, once[to]).update(to, once[from]) =~= slots);
    lemma_count_update(slots, from, slots[to], kind);
    lemma_count_update(mid, to, slots[from], kind);
}

/// A placement takes exactly one block of the placed type from the
/// inventory, and no item of any other kind.
pub proof fn law_placement_consumes_one_block(
    inv: crate::components::PlayerInventory,
    cooldown: u8,
    request: crate::interaction::PlaceRequest,
    kind: ItemKind,
)
    requires
        crate::components::selection_in_range(inv),
        crate::interaction::placement_allowed(inv, cooldown, request),
    ensures
        ({
            let placed = crate::components::selected_stack(inv)->0.kind;
            let after = consume_outcome(inv.slots@, inv.selected_hotbar as int, 1).0;
            count_of_kind(after, kind) == count_of_kind(inv.slots@, kind) - (if kind == placed {
                1int
            } else {
                0
            })
        }),
{
    law_consume_removes_exactly(inv.slots@, inv.selected_hotbar as int, 1, kind);
}

} // verus!
