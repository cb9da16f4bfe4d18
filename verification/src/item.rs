use vstd::prelude::*;

verus! {

/// Numeric id of a block type in the block registry.
pub type BlockId = u16;

/// Numeric id of a tool in the tool registry.
pub type ToolId = u16;

/// Per-block state bits (orientation and the like) carried by a placed block.
#[derive(Debug, Clone, Copy, PartialEq, Eq, Structural)]
pub struct BlockState(pub u16);

/// An integer block position in world space (Z is up).
#[derive(Debug, Clone, Copy, PartialEq, Eq, Structural)]
pub struct BlockPos {
    pub x: i32,
    pub y: i32,
    pub z: i32,
}

impl BlockPos {
    pub fn new(x: i32, y: i32, z: i32) -> (r: Self)
        ensures
            r.x == x,
            r.y == y,
            r.z == z,
    {
        BlockPos { x, y, z }
    }
}

/// What an item stack holds: blocks of one type in one state, or a tool.
#[derive(Debug, Clone, Copy, PartialEq, Eq, Structural)]
pub enum ItemKind {
    Block { id: BlockId, state: BlockState },
    Tool(ToolId),
}

/// A stack of `count` items of one kind.
#[derive(Debug, Clone, Copy, PartialEq, Eq, Structural)]
pub struct ItemStack {
    pub kind: ItemKind,
    pub count: u16,
}

/// Two stacks may be combined exactly when they hold the same kind of item;
/// how many items fit in one stack is the per-kind stack limit.
pub open spec fn kinds_merge(a: ItemKind, b: ItemKind) -> bool {
    a == b
}

impl ItemStack {
    /// A stack of `count` blocks of type `id` in the default state.
    pub open spec fn block_spec(id: BlockId, count: u16) -> ItemStack {
        ItemStack { kind: ItemKind::Block { id, state: BlockState(0) }, count }
    }

    /// A stack of `count` blocks of type `id` in the default state.
    pub fn block(id: BlockId, count: u16) -> (r: Self)
        ensures
            r == Self::block_spec(id, count),
    {
        ItemStack { kind: ItemKind::Block { id, state: BlockState(0) }, count }
    }

    /// A single tool.
    pub fn tool(id: ToolId) -> (r: Self)
        ensures
            r.kind == ItemKind::Tool(id),
            r.count == 1,
    {
        ItemStack { kind: ItemKind::Tool(id), count: 1 }
    }

    /// Splits `n` items off the stack: the first part holds `n` items, the
    /// second the rest, or nothing when no item is left.
    pub fn split(self, n: u16) -> (r: (ItemStack, Option<ItemStack>))
        requires
            n <= self.count,
        ensures
            r.0 == (ItemStack { kind: self.kind, count: n }),
            r.1 == (if self.count == n {
                None
            } else {
                Some(ItemStack { kind: self.kind, count: (self.count - n) as u16 })
            }),
    {
        let rest = self.count - n;
        let first = ItemStack { kind: self.kind, count: n };
        if rest == 0 {
            (first, None)
        } else {
            (first, Some(ItemStack { kind: self.kind, count: rest }))
        }
    }
}

/// Whether stacks of kinds `a` and `b` may be combined.
pub fn can_merge_stacks(a: ItemKind, b: ItemKind) -> (r: bool)
    ensures
        r == kinds_merge(a, b),
{
    a == b
}

} // verus!
