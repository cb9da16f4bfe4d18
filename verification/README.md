# opencraft

The gameplay rules of a voxel sandbox, written in Verus and proved against
their contracts.

## Layout

- `src/` is the verified library.
  - `item`, `components`: item stacks, block positions, the player inventory
    and the ECS markers the game attaches to entities.
  - `inventory`, `inventory_laws`: inserting, quick-moving, consuming,
    dropping and swapping stacks, the inventory command queue, and the laws
    that these operations keep (no item is created or lost, a swap undone
    restores the slots, a placement takes exactly one block).
  - `wire`: the network form of stacks, drop amounts and inventories, with
    round-trip laws.
  - `world_items`, `drops`: the ledger of dropped items, pickup claims, the
    merge plan for nearby stacks, and the settling of a pickup.
  - `terrain`, `spawning`, `simulation`, `play_mode`: the flat debug world,
    chicken spawning, player spawning and the play modes.
  - `mining`, `interaction`: the mining and block-placement decisions.
  - `chunks`, `mesh_cache`: which chunk meshes a block change touches, and
    the bookkeeping of the chunk mesh cache.
  - `render`, `screen_text`: integer helpers the renderer shares (particle
    seeds, stack visuals, the debug font, shader assembly).
- `tests/` runs the library on concrete values.
- `app/` holds the floating-point side (movement, lighting, ray casting,
  item motion, layout), which calls into the library.
