//! Gameplay rules of a voxel sandbox: play modes, item stacks and the player
//! inventory, the dropped-item ledger, the flat debug terrain, the wire form of
//! inventories, and the small integer helpers that the renderer shares.

pub mod play_mode;
pub mod item;
pub mod components;
pub mod inventory;
pub mod inventory_laws;
pub mod wire;
pub mod world_items;
pub mod terrain;
pub mod simulation;
pub mod mining;
pub mod interaction;
pub mod drops;
pub mod screen_text;
pub mod render;
pub mod spawning;
pub mod chunks;
pub mod mesh_cache;
