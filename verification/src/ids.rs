//! Identifiers and map positions shared by the game-logic modules.

use vstd::prelude::*;

verus! {

/// Runtime identifier of a creature (player, monster or NPC).
pub type CreatureId = u64;

/// Runtime identifier of an item instance (a container is addressed by its item).
pub type ItemId = u64;

/// A map coordinate: `x`, `y` on a floor, `z` the floor number (7 is sea level).
#[derive(Debug, Clone, Copy, PartialEq, Eq, Structural, Hash)]
pub struct Position {
    pub x: u16,
    pub y: u16,
    pub z: u8,
}

impl Position {
    pub fn new(x: u16, y: u16, z: u8) -> (p: Position)
        ensures
            p.x == x,
            p.y == y,
            p.z == z,
    {
        Position { x, y, z }
    }
}

} // verus!
