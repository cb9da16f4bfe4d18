use vstd::prelude::*;

use crate::components::WorldItemId;
use crate::inventory::InsertResult;
use crate::item::{kinds_merge, ItemStack};
use crate::world_items::{WorldItemBook, WorldItemEntry};

verus! {

/// An item stack lying in the world, and the ticks left before it can be
/// picked up.
#[derive(Debug, Clone, Copy, PartialEq, Eq, Structural)]
pub struct DroppedItem {
    pub stack: ItemStack,
    pub pickup_delay_ticks: u8,
}

impl DroppedItem {
    /// One tick of the pickup delay, which stops at zero.
    pub fn tick_pickup_delay(&mut self)
        ensures
            final(self).stack == old(self).stack,
            final(self).pickup_delay_ticks == (if old(self).pickup_delay_ticks > 0 {
                old(self).pickup_delay_ticks - 1
            } else {
                0
            }),
    {
        if self.pickup_delay_ticks > 0 {
            self.pickup_delay_ticks = self.pickup_delay_ticks - 1;
        }
    }

    /// Whether a player can pick the stack up (its delay has run out).
    pub fn pickup_ready(&self) -> (r: bool)
        ensures
            r == (self.pickup_delay_ticks == 0),
    {
        self.pickup_delay_ticks == 0
    }
}

/// Two dropped stacks lying close enough together combine into one, when they
/// hold the same kind and fit under its stack limit `max_stack`: the result
/// keeps the first stack's kind with both counts added.
pub fn merge_dropped_stacks(a: ItemStack, b: ItemStack, max_stack: u16, close_enough: bool) -> (r:
    Option<ItemStack>)
    ensures
        r == (if close_enough && kinds_merge(a.kind, b.kind) && a.count + b.count <= max_stack {
            Some(ItemStack { kind: a.kind, count: (a.count + b.count) as u16 })
        } else if close_enough && kinds_merge(a.kind, b.kind) && a.count + b.count > u16::MAX
            && max_stack == u16::MAX {
            Some(ItemStack { kind: a.kind, count: u16::MAX })
        } else {
            None
        }),
{
    if !close_enough {
        return None;
    }
    if !crate::inventory::stacks_fit_together(&a, &b, max_stack) {
        return None;
    }
    Some(ItemStack { kind: a.kind, count: a.count.saturating_add(b.count) })
}

impl<P> WorldItemBook<P> {
    /// Records a newly dropped stack at `position` under a fresh id, and
    /// returns that id.
    pub fn record_drop(&mut self, position: P, stack: ItemStack) -> (r: WorldItemId)
        requires
            old(self).next_id < u32::MAX,
        ensures
            r.0 == old(self).next_id,
            final(self).next_id == old(self).next_id + 1,
            final(self).entries@ == old(self).entries@.insert(
                r.0,
                WorldItemEntry { id: r, position, stack },
            ),
            final(self).dirty,
    {
        let id = self.allocate_id();
        self.insert(WorldItemEntry { id, position, stack });
        id
    }
}

/// Settles the dropped item that a pickup came from, once its insert into the
/// inventory ended with `result`: after a complete pickup the item leaves the
/// ledger and is to be despawned; after a partial one the remainder stays
/// lying there, in the item and in the ledger. Returns whether to despawn it.
pub fn settle_pickup<P>(
    book: &mut WorldItemBook<P>,
    item: &mut DroppedItem,
    id: WorldItemId,
    result: InsertResult,
) -> (despawn: bool)
    ensures
        final(book).next_id == old(book).next_id,
        final(item).pickup_delay_ticks == old(item).pickup_delay_ticks,
        match result {
            InsertResult::Complete => {
                &&& despawn
                &&& final(item).stack == old(item).stack
                &&& final(book).entries@ == old(book).entries@.remove(id.0)
                &&& final(book).dirty == (old(book).dirty || old(book).entries@.contains_key(id.0))
            },
            InsertResult::Partial { remainder } => {
                &&& !despawn
                &&& final(item).stack == remainder
                &&& old(book).entries@.contains_key(id.0) ==> {
                    let e = old(book).entries@[id.0];
                    &&& final(book).entries@ == old(book).entries@.insert(
                        id.0,
                        WorldItemEntry { id: e.id, position: e.position, stack: remainder },
                    )
                    &&& final(book).dirty
                }
                &&& !old(book).entries@.contains_key(id.0) ==> final(book).entries@
                    == old(book).entries@ && final(book).dirty == old(book).dirty
            },
        },
{
    match result {
        InsertResult::Complete => {
            book.remove(id);
            true
        },
        InsertResult::Partial { remainder } => {
            item.stack = remainder;
            book.update_stack(id, remainder);
            false
        },
    }
}

/// Recording drops never reuses an id: when every recorded id lies below the
/// next id, a new drop's id is not recorded yet, and afterwards every
/// recorded id again lies below the next id.
pub proof fn law_recorded_drop_ids_are_fresh<P>(
    entries: Map<u32, WorldItemEntry<P>>,
    next_id: u32,
    position: P,
    stack: ItemStack,
)
    requires
        next_id < u32::MAX,
        forall|k: u32| #[trigger] entries.contains_key(k) ==> k < next_id,
    ensures
        !entries.contains_key(next_id),
        forall|k: u32|
            #[trigger] entries.insert(
                next_id,
                WorldItemEntry { id: WorldItemId(next_id), position, stack },
            ).contains_key(k) ==> k < next_id + 1,
{
}

/// Player `p` claims item `i` when it is eligible for it (in reach, ready to
/// collect, the item's delay over) and no earlier player is.
pub open spec fn claims(eligible: Seq<Vec<bool>>, p: int, i: int) -> bool {
    &&& 0 <= p < eligible.len()
    &&& 0 <= i < eligible[p]@.len()
    &&& eligible[p]@[i]
    &&& forall|q: int| 0 <= q < p ==> !(#[trigger] eligible[q]@[i])
}

/// An item goes to one player at most: two players that claim the same item
/// are the same player.
pub proof fn law_each_item_claimed_once(eligible: Seq<Vec<bool>>, p: int, q: int, i: int)
    requires
        claims(eligible, p, i),
        claims(eligible, q, i),
    ensures
        p == q,
{
    if p < q {
        assert(eligible[p]@[i]);
    } else if q < p {
        assert(eligible[q]@[i]);
    }
}

/// `(p, i)` comes before `(q, j)` in player-then-item order.
pub open spec fn claim_before(a: (usize, usize), b: (usize, usize)) -> bool {
    a.0 < b.0 || (a.0 == b.0 && a.1 < b.1)
}

/// The pickups of one tick, in the order their insert commands are queued:
/// players in order, each taking in item order every item it is eligible for
/// and that no earlier player took. `eligible[p][i]` says whether player `p`
/// may take item `i`; every row covers all `item_count` items. Each item goes
/// to one player at most.
pub fn pickup_claims(eligible: &Vec<Vec<bool>>, item_count: usize) -> (r: Vec<(usize, usize)>)
    requires
        forall|p: int| 0 <= p < eligible@.len() ==> (#[trigger] eligible@[p])@.len() == item_count,
    ensures
        forall|k: int| 0 <= k < r@.len() ==> claims(eligible@, r@[k].0 as int, r@[k].1 as int),
        forall|p: int, i: int| claims(eligible@, p, i) ==> r@.contains((p as usize, i as usize)),
        forall|k1: int, k2: int|
            0 <= k1 < k2 < r@.len() ==> claim_before(#[trigger] r@[k1], #[trigger] r@[k2]),
{
    let mut claimed: Vec<bool> = Vec::new();
    let mut n: usize = 0;
    while n < item_count
        invariant
            n <= item_count,
            claimed@.len() == n,
            forall|i: int| 0 <= i < n ==> !(#[trigger] claimed@[i]),
        decreases item_count - n,
    {
        claimed.push(false);
        n = n + 1;
    }
    let mut out: Vec<(usize, usize)> = Vec::new();
    let mut p: usize = 0;
    while p < eligible.len()
        invariant
            p <= eligible@.len(),
            claimed@.len() == item_count,
            forall|q: int| 0 <= q < eligible@.len() ==> (#[trigger] eligible@[q])@.len() == item_count,
            forall|i: int|
                0 <= i < item_count ==> (#[trigger] claimed@[i] <==> exists|q: int|
                    0 <= q < p && #[trigger] eligible@[q]@[i]),
            forall|k: int| 0 <= k < out@.len() ==> claims(eligible@, out@[k].0 as int, out@[k].1 as int),
            forall|k: int| 0 <= k < out@.len() ==> (#[trigger] out@[k]).0 < p,
            forall|q: int, i: int| 0 <= q < p && claims(eligible@, q, i) ==> out@.contains((q as usize, i as usize)),
            forall|k1: int, k2: int|
                0 <= k1 < k2 < out@.len() ==> claim_before(#[trigger] out@[k1], #[trigger] out@[k2]),
        decreases eligible.len() - p,
    {
        let row = &eligible[p];
        let mut i: usize = 0;
        while i < item_count
            invariant
                p < eligible@.len(),
                i <= item_count,
                *row == eligible@[p as int],
                claimed@.len() == item_count,
                forall|q: int| 0 <= q < eligible@.len() ==> (#[trigger] eligible@[q])@.len() == item_count,
                forall|j: int|
                    0 <= j < item_count ==> (#[trigger] claimed@[j] <==> (exists|q: int|
                        0 <= q < p && #[trigger] eligible@[q]@[j]) || (j < i && eligible@[p as int]@[j])),
                forall|k: int| 0 <= k < out@.len() ==> claims(eligible@, out@[k].0 as int, out@[k].1 as int),
                forall|k: int| 0 <= k < out@.len() ==> claim_before(#[trigger] out@[k], (p, i)),
                forall|q: int, j: int|
                    ((0 <= q < p) || (q == p && j < i)) && claims(eligible@, q, j) ==> out@.contains(
                        (q as usize, j as usize),
                    ),
                forall|k1: int, k2: int|
                    0 <= k1 < k2 < out@.len() ==> claim_before(#[trigger] out@[k1], #[trigger] out@[k2]),
            decreases item_count - i,
        {
            if !claimed[i] && row[i] {
                proof {
                    assert forall|q: int| 0 <= q < p implies !(#[trigger] eligible@[q]@[i as int]) by {
                        if eligible@[q]@[i as int] {
                            assert(claimed@[i as int]);
                        }
                    }
                    assert(claims(eligible@, p as int, i as int));
                }
                claimed.set(i, true);
                let ghost before = out@;
                out.push((p, i));
                proof {
                    assert(out@[out@.len() - 1] == (p, i));
                    assert forall|q: int, j: int|
                        ((0 <= q < p) || (q == p && j < i + 1)) && claims(eligible@, q, j) implies out@.contains(
                            (q as usize, j as usize),
                        ) by {
                        if q == p && j == i {
                            assert(out@[out@.len() - 1] == (q as usize, j as usize));
                        } else {
                            assert(before.contains((q as usize, j as usize)));
                            let k = choose|k: int| 0 <= k < before.len() && before[k] == (q as usize, j as usize);
                            assert(out@[k] == (q as usize, j as usize));
                        }
                    }
                }
            } else {
                proof {
                    if claims(eligible@, p as int, i as int) {
                        assert(!claimed@[i as int]) by {
                            if claimed@[i as int] {
                                let q = choose|q: int| 0 <= q < p && #[trigger] eligible@[q]@[i as int];
                            }
                        }
                    }
                }
            }
            i = i + 1;
        }
        p = p + 1;
    }
    out
}

/// One merge of the dropped-item merge pass: item `absorbed` disappears into
/// item `keeper`, whose count becomes `count`.
#[derive(Debug, Clone, Copy, PartialEq, Eq, Structural)]
pub struct MergeAction {
    pub keeper: usize,
    pub absorbed: usize,
    pub count: u16,
}

/// The state of the merge pass: which items are gone, and the merges so far.
pub struct MergePassState {
    pub absorbed: Seq<bool>,
    pub actions: Seq<MergeAction>,
}

/// The count an absorbing keeper is given: the two stacks' counts as the pass
/// read them at its start, added and capped at `u16::MAX`.
pub open spec fn merged_count(a: ItemStack, b: ItemStack) -> u16 {
    if a.count + b.count > u16::MAX {
        u16::MAX
    } else {
        (a.count + b.count) as u16
    }
}

/// Whether item `j` merges into item `i` when the pass reaches the pair:
/// neither is gone yet, the stacks (as read at the start) fit together under
/// `i`'s stack limit, and they lie close together.
pub open spec fn pair_merges(
    items: Seq<ItemStack>,
    limits: Seq<u16>,
    close: Seq<Vec<bool>>,
    absorbed: Seq<bool>,
    i: int,
    j: int,
) -> bool {
    &&& !absorbed[i]
    &&& !absorbed[j]
    &&& kinds_merge(items[i].kind, items[j].kind)
    &&& (if items[i].count + items[j].count > u16::MAX {
        u16::MAX as int
    } else {
        items[i].count + items[j].count
    }) <= limits[i]
    &&& close[i]@[j]
}

/// The pass over the pairs (`i`, `i + 1`), ..., (`i`, `end - 1`).
pub open spec fn merge_row(
    items: Seq<ItemStack>,
    limits: Seq<u16>,
    close: Seq<Vec<bool>>,
    state: MergePassState,
    i: int,
    end: int,
) -> MergePassState
    decreases end - i,
{
    if end <= i + 1 {
        state
    } else {
        let prev = merge_row(items, limits, close, state, i, end - 1);
        let j = end - 1;
        if pair_merges(items, limits, close, prev.absorbed, i, j) {
            MergePassState {
                absorbed: prev.absorbed.update(j, true),
                actions: prev.actions.push(
                    MergeAction {
                        keeper: i as usize,
                        absorbed: j as usize,
                        count: merged_count(items[i], items[j]),
                    },
                ),
            }
        } else {
            prev
        }
    }
}

/// The pass over all pairs whose first item is below `rows`.
pub open spec fn merge_rows(
    items: Seq<ItemStack>,
    limits: Seq<u16>,
    close: Seq<Vec<bool>>,
    rows: int,
) -> MergePassState
    decreases rows,
{
    if rows <= 0 {
        MergePassState { absorbed: Seq::new(items.len(), |k: int| false), actions: Seq::empty() }
    } else {
        merge_row(
            items,
            limits,
            close,
            merge_rows(items, limits, close, rows - 1),
            rows - 1,
            items.len() as int,
        )
    }
}

proof fn lemma_merge_row_len(
    items: Seq<ItemStack>,
    limits: Seq<u16>,
    close: Seq<Vec<bool>>,
    state: MergePassState,
    i: int,
    end: int,
)
    requires
        state.absorbed.len() == items.len(),
        0 <= i,
        end <= items.len(),
    ensures
        merge_row(items, limits, close, state, i, end).absorbed.len() == items.len(),
    decreases end - i,
{
    if end > i + 1 {
        lemma_merge_row_len(items, limits, close, state, i, end - 1);
    }
}

/// The merge pass over the dropped items of one tick. Items are visited in
/// order; each item not yet gone absorbs every later item not yet gone that
/// holds the same kind, fits with it under its stack limit (`limits[i]`, both
/// counts read at the start of the pass) and lies close to it
/// (`close[i][j]`). The merges come out in the order they happen.
pub fn plan_item_merges(items: &Vec<ItemStack>, limits: &Vec<u16>, close: &Vec<Vec<bool>>) -> (r: Vec<
    MergeAction,
>)
    requires
        limits@.len() == items@.len(),
        close@.len() == items@.len(),
        forall|i: int| 0 <= i < close@.len() ==> (#[trigger] close@[i])@.len() == items@.len(),
    ensures
        r@ == merge_rows(items@, limits@, close@, items@.len() as int).actions,
{
    let n = items.len();
    let mut absorbed: Vec<bool> = Vec::new();
    let mut k: usize = 0;
    while k < n
        invariant
            k <= n,
            n == items@.len(),
            absorbed@.len() == k,
            forall|m: int| 0 <= m < k ==> !(#[trigger] absorbed@[m]),
        decreases n - k,
    {
        absorbed.push(false);
        k = k + 1;
    }
    let mut actions: Vec<MergeAction> = Vec::new();
    proof {
        assert(absorbed@ =~= merge_rows(items@, limits@, close@, 0).absorbed);
    }
    let mut i: usize = 0;
    while i < n
        invariant
            i <= n,
            n == items@.len(),
            limits@.len() == n,
            close@.len() == n,
            forall|m: int| 0 <= m < close@.len() ==> (#[trigger] close@[m])@.len() == n,
            absorbed@ == merge_rows(items@, limits@, close@, i as int).absorbed,
            actions@ == merge_rows(items@, limits@, close@, i as int).actions,
            absorbed@.len() == n,
        decreases n - i,
    {
        let ghost start = merge_rows(items@, limits@, close@, i as int);
        let mut j: usize = i + 1;
        proof {
            assert(merge_row(items@, limits@, close@, start, i as int, j as int) == start);
        }
        while j < n
            invariant
                i < n,
                i + 1 <= j <= n,
                n == items@.len(),
                limits@.len() == n,
                close@.len() == n,
                forall|m: int| 0 <= m < close@.len() ==> (#[trigger] close@[m])@.len() == n,
                start.absorbed.len() == n,
                absorbed@ == merge_row(items@, limits@, close@, start, i as int, j as int).absorbed,
                actions@ == merge_row(items@, limits@, close@, start, i as int, j as int).actions,
                absorbed@.len() == n,
            decreases n - j,
        {
            let a = items[i];
            let b = items[j];
            if !absorbed[i] && !absorbed[j] && crate::inventory::stacks_fit_together(&a, &b, limits[i])
                && close[i][j] {
                absorbed.set(j, true);
                actions.push(
                    MergeAction { keeper: i, absorbed: j, count: a.count.saturating_add(b.count) },
                );
            }
            proof {
                lemma_merge_row_len(items@, limits@, close@, start, i as int, j as int);
            }
            j = j + 1;
        }
        i = i + 1;
    }
    actions
}

/// The merges so far are consistent: every absorbed item is marked gone, no
/// item is absorbed twice, an absorbed item keeps nothing afterwards, and each
/// keeper comes before the item it absorbs.
pub open spec fn pass_consistent(state: MergePassState, n: int) -> bool {
    &&& state.absorbed.len() == n
    &&& forall|k: int|
        0 <= k < state.actions.len() ==> {
            let a = #[trigger] state.actions[k];
            &&& a.keeper < a.absorbed < n
            &&& state.absorbed[a.absorbed as int]
        }
    &&& forall|k1: int, k2: int|
        0 <= k1 < k2 < state.actions.len() ==> (#[trigger] state.actions[k1]).absorbed != (
        #[trigger] state.actions[k2]).absorbed && state.actions[k2].keeper
            != state.actions[k1].absorbed
}

proof fn lemma_merge_row_consistent(
    items: Seq<ItemStack>,
    limits: Seq<u16>,
    close: Seq<Vec<bool>>,
    state: MergePassState,
    i: int,
    end: int,
)
    requires
        pass_consistent(state, items.len() as int),
        0 <= i,
        end <= items.len(),
        items.len() <= usize::MAX,
    ensures
        pass_consistent(merge_row(items, limits, close, state, i, end), items.len() as int),
    decreases end - i,
{
    if end > i + 1 {
        lemma_merge_row_consistent(items, limits, close, state, i, end - 1);
        let prev = merge_row(items, limits, close, state, i, end - 1);
        let j = end - 1;
        if pair_merges(items, limits, close, prev.absorbed, i, j) {
            let next = merge_row(items, limits, close, state, i, end);
            assert forall|k: int| 0 <= k < prev.actions.len() implies #[trigger] next.actions[k]
                == prev.actions[k] && next.absorbed[prev.actions[k].absorbed as int] by {
            }
            assert forall|k1: int, k2: int|
                0 <= k1 < k2 < next.actions.len() implies (#[trigger] next.actions[k1]).absorbed
                != (#[trigger] next.actions[k2]).absorbed && next.actions[k2].keeper
                != next.actions[k1].absorbed by {
                if k2 == next.actions.len() - 1 {
                    let a1 = prev.actions[k1];
                    assert(next.actions[k1] == a1);
                    assert(prev.absorbed[a1.absorbed as int]);
                    assert(next.actions[k2].absorbed as int == j);
                    assert(next.actions[k2].keeper as int == i);
                } else {
                    assert(next.actions[k1] == prev.actions[k1]);
                    assert(next.actions[k2] == prev.actions[k2]);
                }
            }
        }
    }
}

proof fn lemma_merge_rows_consistent(
    items: Seq<ItemStack>,
    limits: Seq<u16>,
    close: Seq<Vec<bool>>,
    rows: int,
)
    requires
        rows <= items.len(),
        items.len() <= usize::MAX,
    ensures
        pass_consistent(merge_rows(items, limits, close, rows), items.len() as int),
    decreases rows,
{
    if rows > 0 {
        lemma_merge_rows_consistent(items, limits, close, rows - 1);
        lemma_merge_row_consistent(
            items,
            limits,
            close,
            merge_rows(items, limits, close, rows - 1),
            rows - 1,
            items.len() as int,
        );
    }
}

/// The counts the items hold before any merge.
pub open spec fn item_counts(items: Seq<ItemStack>) -> Seq<int> {
    Seq::new(items.len(), |k: int| items[k].count as int)
}

/// The counts of the items once the merges `actions` are applied in turn: a
/// keeper is given the merge's count, an absorbed item keeps nothing.
pub open spec fn counts_after(items: Seq<ItemStack>, actions: Seq<MergeAction>) -> Seq<int>
    decreases actions.len(),
{
    if actions.len() == 0 {
        item_counts(items)
    } else {
        let a = actions.last();
        counts_after(items, actions.drop_last()).update(a.keeper as int, a.count as int).update(
            a.absorbed as int,
            0,
        )
    }
}

/// The sum of the entries of `s`.
pub open spec fn total(s: Seq<int>) -> int
    decreases s.len(),
{
    if s.len() == 0 {
        0
    } else {
        total(s.drop_last()) + s.last()
    }
}

proof fn lemma_total_update(s: Seq<int>, k: int, v: int)
    requires
        0 <= k < s.len(),
    ensures
        total(s.update(k, v)) == total(s) - s[k] + v,
    decreases s.len(),
{
    if k == s.len() - 1 {
        assert(s.update(k, v).drop_last() =~= s.drop_last());
    } else {
        lemma_total_update(s.drop_last(), k, v);
        assert(s.update(k, v).drop_last() =~= s.drop_last().update(k, v));
    }
}

/// What the merge pass keeps true of the counts, with the items from
/// `first_free` on not yet having been keepers: absorbed items hold nothing,
/// the others at least what they started with (exactly that from
/// `first_free` on), and the total has not grown.
spec fn merge_counts_ok(items: Seq<ItemStack>, state: MergePassState, first_free: int) -> bool {
    let c = counts_after(items, state.actions);
    &&& c.len() == items.len()
    &&& state.absorbed.len() == items.len()
    &&& forall|k: int| 0 <= k < items.len() && #[trigger] state.absorbed[k] ==> c[k] == 0
    &&& forall|k: int|
        0 <= k < items.len() && !(#[trigger] state.absorbed[k]) ==> c[k] >= items[k].count
    &&& forall|k: int|
        first_free <= k < items.len() && !(#[trigger] state.absorbed[k]) ==> c[k] == items[k].count
    &&& total(c) <= total(item_counts(items))
}

proof fn lemma_merge_row_counts(
    items: Seq<ItemStack>,
    limits: Seq<u16>,
    close: Seq<Vec<bool>>,
    state: MergePassState,
    i: int,
    end: int,
)
    requires
        0 <= i,
        end <= items.len(),
        items.len() <= usize::MAX,
        merge_counts_ok(items, state, i + 1),
    ensures
        merge_counts_ok(items, merge_row(items, limits, close, state, i, end), i + 1),
    decreases end - i,
{
    if end > i + 1 {
        lemma_merge_row_counts(items, limits, close, state, i, end - 1);
        let prev = merge_row(items, limits, close, state, i, end - 1);
        let j = end - 1;
        if pair_merges(items, limits, close, prev.absorbed, i, j) {
            let next = merge_row(items, limits, close, state, i, end);
            let a = MergeAction {
                keeper: i as usize,
                absorbed: j as usize,
                count: merged_count(items[i], items[j]),
            };
            assert(next.actions == prev.actions.push(a));
            assert(next.actions.drop_last() == prev.actions);
            let c = counts_after(items, prev.actions);
            let c1 = c.update(i, a.count as int);
            let c2 = c1.update(j, 0);
            assert(counts_after(items, next.actions) == c2);
            lemma_total_update(c, i, a.count as int);
            lemma_total_update(c1, j, 0);
            assert(!prev.absorbed[j]);
            assert(c[j] == items[j].count);
            assert(c[i] >= items[i].count);
            assert(a.count <= items[i].count + items[j].count);
            assert forall|k: int| 0 <= k < items.len() && #[trigger] next.absorbed[k] implies c2[k] == 0 by {
                if k != j {
                    assert(prev.absorbed[k]);
                }
            }
            assert forall|k: int|
                0 <= k < items.len() && !(#[trigger] next.absorbed[k]) implies c2[k] >= items[k].count by {
                assert(!prev.absorbed[k]);
            }
            assert forall|k: int|
                i + 1 <= k < items.len() && !(#[trigger] next.absorbed[k]) implies c2[k]
                == items[k].count by {
                assert(!prev.absorbed[k]);
            }
        }
    }
}

proof fn lemma_merge_rows_counts(
    items: Seq<ItemStack>,
    limits: Seq<u16>,
    close: Seq<Vec<bool>>,
    rows: int,
)
    requires
        0 <= rows <= items.len(),
        items.len() <= usize::MAX,
    ensures
        merge_counts_ok(items, merge_rows(items, limits, close, rows), rows),
    decreases rows,
{
    if rows == 0 {
        let s = merge_rows(items, limits, close, 0);
        assert(counts_after(items, s.actions) == item_counts(items));
    } else {
        lemma_merge_rows_counts(items, limits, close, rows - 1);
        lemma_merge_row_counts(
            items,
            limits,
            close,
            merge_rows(items, limits, close, rows - 1),
            rows - 1,
            items.len() as int,
        );
    }
}

/// The merge pass never creates items: once its merges are applied, the
/// items hold no more in total than they held before. (It can lose some: a
/// keeper that absorbs two items ends with its own count plus only the last
/// one's, as both sums are taken from the counts at the start of the pass.)
pub proof fn law_merge_pass_never_creates_items(
    items: Seq<ItemStack>,
    limits: Seq<u16>,
    close: Seq<Vec<bool>>,
)
    requires
        items.len() <= usize::MAX,
    ensures
        total(counts_after(items, merge_rows(items, limits, close, items.len() as int).actions))
            <= total(item_counts(items)),
{
    lemma_merge_rows_counts(items, limits, close, items.len() as int);
}

/// Every merge the pass makes joins two items that lie close together
/// (`close[keeper][absorbed]`), hold the same kind, and whose counts (as read
/// at the start of the pass) add up, capped at `u16::MAX`, to the keeper's
/// new count, which stays within the keeper's stack limit.
pub open spec fn merge_is_sound(
    items: Seq<ItemStack>,
    limits: Seq<u16>,
    close: Seq<Vec<bool>>,
    a: MergeAction,
) -> bool {
    let i = a.keeper as int;
    let j = a.absorbed as int;
    let sum = items[i].count + items[j].count;
    &&& 0 <= i < j < items.len()
    &&& close[i]@[j]
    &&& items[i].kind == items[j].kind
    &&& a.count == (if sum > u16::MAX {
        u16::MAX as int
    } else {
        sum
    })
    &&& a.count <= limits[i]
}

proof fn lemma_merge_row_sound(
    items: Seq<ItemStack>,
    limits: Seq<u16>,
    close: Seq<Vec<bool>>,
    state: MergePassState,
    i: int,
    end: int,
)
    requires
        0 <= i,
        end <= items.len(),
        items.len() <= usize::MAX,
        forall|k: int|
            0 <= k < state.actions.len() ==> merge_is_sound(items, limits, close, #[trigger] state.actions[k]),
    ensures
        forall|k: int|
            0 <= k < merge_row(items, limits, close, state, i, end).actions.len() ==> merge_is_sound(
                items,
                limits,
                close,
                #[trigger] merge_row(items, limits, close, state, i, end).actions[k],
            ),
    decreases end - i,
{
    if end > i + 1 {
        lemma_merge_row_sound(items, limits, close, state, i, end - 1);
        let prev = merge_row(items, limits, close, state, i, end - 1);
        let j = end - 1;
        if pair_merges(items, limits, close, prev.absorbed, i, j) {
            let next = merge_row(items, limits, close, state, i, end);
            assert forall|k: int| 0 <= k < next.actions.len() implies merge_is_sound(
                items,
                limits,
                close,
                #[trigger] next.actions[k],
            ) by {
                if k < prev.actions.len() {
                    assert(next.actions[k] == prev.actions[k]);
                }
            }
        }
    }
}

proof fn lemma_merge_rows_sound(
    items: Seq<ItemStack>,
    limits: Seq<u16>,
    close: Seq<Vec<bool>>,
    rows: int,
)
    requires
        0 <= rows <= items.len(),
        items.len() <= usize::MAX,
    ensures
        forall|k: int|
            0 <= k < merge_rows(items, limits, close, rows).actions.len() ==> merge_is_sound(
                items,
                limits,
                close,
                #[trigger] merge_rows(items, limits, close, rows).actions[k],
            ),
    decreases rows,
{
    if rows > 0 {
        lemma_merge_rows_sound(items, limits, close, rows - 1);
        lemma_merge_row_sound(
            items,
            limits,
            close,
            merge_rows(items, limits, close, rows - 1),
            rows - 1,
            items.len() as int,
        );
    }
}

/// Items that do not lie close together never merge: every merge of the pass
/// joins two close items of the same kind, keeps an earlier item, and gives it
/// the sum of both counts, capped at `u16::MAX` and within its stack limit.
pub proof fn law_merges_join_close_items_of_one_kind(
    items: Seq<ItemStack>,
    limits: Seq<u16>,
    close: Seq<Vec<bool>>,
)
    requires
        items.len() <= usize::MAX,
    ensures
        forall|k: int|
            0 <= k < merge_rows(items, limits, close, items.len() as int).actions.len() ==> {
                let a = #[trigger] merge_rows(items, limits, close, items.len() as int).actions[k];
                let i = a.keeper as int;
                let j = a.absorbed as int;
                &&& 0 <= i < j < items.len()
                &&& close[i]@[j]
                &&& items[i].kind == items[j].kind
                &&& a.count <= limits[i]
                &&& (items[i].count + items[j].count <= u16::MAX ==> a.count == items[i].count
                    + items[j].count)
                &&& (items[i].count + items[j].count > u16::MAX ==> a.count == u16::MAX)
            },
{
    lemma_merge_rows_sound(items, limits, close, items.len() as int);
    assert forall|k: int|
        0 <= k < merge_rows(items, limits, close, items.len() as int).actions.len() implies {
            let a = #[trigger] merge_rows(items, limits, close, items.len() as int).actions[k];
            let i = a.keeper as int;
            let j = a.absorbed as int;
            &&& 0 <= i < j < items.len()
            &&& close[i]@[j]
            &&& items[i].kind == items[j].kind
            &&& a.count <= limits[i]
            &&& (items[i].count + items[j].count <= u16::MAX ==> a.count == items[i].count
                + items[j].count)
            &&& (items[i].count + items[j].count > u16::MAX ==> a.count == u16::MAX)
        } by {
        let a = merge_rows(items, limits, close, items.len() as int).actions[k];
        assert(merge_is_sound(items, limits, close, a));
    }
}

/// The merge pass absorbs each item at most once, into an earlier item, and an
/// absorbed item absorbs nothing afterwards.
pub proof fn law_merge_pass_absorbs_each_item_once(
    items: Seq<ItemStack>,
    limits: Seq<u16>,
    close: Seq<Vec<bool>>,
)
    requires
        items.len() <= usize::MAX,
    ensures
        pass_consistent(merge_rows(items, limits, close, items.len() as int), items.len() as int),
{
    lemma_merge_rows_consistent(items, limits, close, items.len() as int);
}

} // verus!
