//! What a monster carries from its spawn, and the blood it sheds when hit.

use vstd::prelude::*;
use rand::rngs::ThreadRng;
use crate::combat::rng::gen_range_inclusive;
use crate::ids::ItemId;

verus! {

/// Container a monster's spawn loot goes into.
pub const DEFAULT_MONSTER_BAG_TYPE: u16 = 1987;

/// Corpse used when a race names none.
pub const GENERIC_CORPSE_TYPE: u16 = 3058;

/// The large and small splash items.
pub const ITEM_FULLSPLASH: u16 = 2016;
pub const ITEM_SMALLSPLASH: u16 = 2019;

/// The blood family of a creature.
#[derive(Debug, Clone, Copy, PartialEq, Eq, Structural)]
pub enum BloodType {
    Blood,
    Slime,
    Bones,
    Fire,
    Energy,
}

/// The effect of a physical hit by blood family: blood and fire 1, slime 17, bones 10,
/// energy 12.
pub fn physical_hit_effect_772(blood: BloodType) -> (r: u8)
    ensures
        r == match blood {
            BloodType::Blood => 1u8,
            BloodType::Slime => 17u8,
            BloodType::Bones => 10u8,
            BloodType::Fire => 1u8,
            BloodType::Energy => 12u8,
        },
{
    match blood {
        BloodType::Blood => 1,
        BloodType::Slime => 17,
        BloodType::Bones => 10,
        BloodType::Fire => 1,
        BloodType::Energy => 12,
    }
}

/// The fluid of the splash a hit leaves: blood 5, slime 6; none for the others.
pub fn splash_fluid_772(blood: BloodType) -> (r: Option<u16>)
    ensures
        r == match blood {
            BloodType::Blood => Some(5u16),
            BloodType::Slime => Some(6u16),
            _ => None,
        },
{
    match blood {
        BloodType::Blood => Some(5),
        BloodType::Slime => Some(6),
        _ => None,
    }
}

/// Items a monster got at spawn: equipment slots 1 to 10 (index 0 is slot 1) and the
/// bag holding the rest, if any.
#[derive(Debug, Clone)]
pub struct MonsterInventory {
    pub equipment: [Option<ItemId>; 11],
    pub bag: Option<ItemId>,
}

impl Default for MonsterInventory {
    fn default() -> (r: MonsterInventory)
        ensures
            forall|i: int| 0 <= i < 11 ==> r.equipment@[i] is None,
            r.bag is None,
    {
        MonsterInventory { equipment: [None; 11], bag: None }
    }
}

/// How many of a loot item drop: a roll in `1..=countmax` (at least 1), taken to `u16`
/// by truncation. Which value is rolled is left to the generator.
pub fn roll_loot_count(rng: &mut ThreadRng, countmax: i32) -> (r: u16)
    ensures
        exists|v: i32| 1 <= v <= (if countmax < 1 { 1 } else { countmax }) && r == #[trigger] (v as u16),
        countmax <= u16::MAX ==> 1 <= r <= (if countmax < 1 { 1 } else { countmax }),
{
    let max = if countmax < 1 { 1 } else { countmax };
    let v = gen_range_inclusive(rng, 1, max);
    let r = #[verifier::truncate] (v as u16);
    assert(1 <= v <= max && r == (v as u16));
    r
}

} // verus!
