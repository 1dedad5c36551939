//! Combat: area shapes, damage / experience formulas, PvP checks and the combat-list
//! credit of a hit.

pub mod aoe;
pub mod circles;
pub mod math;
pub mod pvp;
pub mod rng;

use vstd::prelude::*;
use crate::ids::CreatureId;

verus! {

/// Damage elements.
#[derive(Debug, Clone, Copy, PartialEq, Eq, Structural)]
pub enum CombatType {
    Physical,
    Energy,
    Earth,
    Fire,
    Undefined,
    LifeDrain,
    ManaDrain,
    Healing,
    Drown,
    Ice,
    Holy,
    Death,
}

/// Who gets combat-list credit for a hit: the round it happened in and, for a summon's
/// hit, the master responsible (attacker and master then get half each).
#[derive(Debug, Clone, Copy, PartialEq, Eq, Structural)]
pub struct CombatListCredit {
    pub round_nr: u32,
    pub responsible: Option<CreatureId>,
}

/// The client effect of a typed (non-physical) hit: energy 12, earth 9, fire 16, life
/// and mana drain 14; none for the others.
pub fn combat_type_hit_effect(combat_type: CombatType) -> (r: Option<u8>)
    ensures
        r == match combat_type {
            CombatType::Energy => Some(12u8),
            CombatType::Earth => Some(9u8),
            CombatType::Fire => Some(16u8),
            CombatType::LifeDrain | CombatType::ManaDrain => Some(14u8),
            _ => None,
        },
{
    match combat_type {
        CombatType::Energy => Some(12),
        CombatType::Earth => Some(9),
        CombatType::Fire => Some(16),
        CombatType::LifeDrain => Some(14),
        CombatType::ManaDrain => Some(14),
        _ => None,
    }
}

} // verus!
