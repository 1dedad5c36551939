//! Creatures: looks, light, monster states and combat data, NPC activity, and the pure
//! rules of players and vocations.

pub mod base;
pub mod light;
pub mod monster;
pub mod monster_combat;
pub mod monster_inventory;
pub mod npc;
pub mod player;
pub mod vocation;
