//! Level experience and the per-vocation progression of vitals and walking speed.

use vstd::prelude::*;
use crate::combat::math::{experience_for_level_poly, exp_poly_fits, spec_exp_for_level};

verus! {

/// Total experience to reach `level` on the classic curve (step 100), not below 0.
pub open spec fn total_exp(level: int) -> int {
    let v = spec_exp_for_level(level, 100);
    if v < 0 { 0 } else { v }
}

/// Total experience required to reach `level` (`(((L-6)L+17)L-12)/6 * 100`, 0 up to
/// level 1).
pub fn total_experience_for_level(level: u32) -> (r: u64)
    requires
        exp_poly_fits(level as int, 100),
    ensures
        r == total_exp(level as int),
{
    let v = experience_for_level_poly(level as i64, 100);
    if v < 0 { 0 } else { v as u64 }
}

/// Experience from `level` to `level + 1`; 0 below level 1.
pub fn experience_to_next_level(level: i32) -> (r: u64)
    requires
        level >= 1 ==> exp_poly_fits(level as int, 100) && exp_poly_fits(level + 1, 100),
    ensures
        r == (if level < 1 { 0 } else {
            let d = total_exp(level + 1) - total_exp(level as int);
            if d < 0 { 0 } else { d }
        }),
{
    if level < 1 {
        return 0;
    }
    let next = total_experience_for_level(level as u32 + 1);
    let cur = total_experience_for_level(level as u32);
    if next >= cur { next - cur } else { 0 }
}

/// How walking speed grows with level.
#[derive(Debug, Clone, Copy, PartialEq, Eq, Structural)]
pub enum StepSpeedModel {
    /// One point per level above the first.
    LinearGo,
    /// Two points per level above the first, kept within 10..=1500.
    TfsLog,
}

/// The integer part of a vocation: ids, base speed, per-level gains (capacity in
/// hundredths of an ounce), level-1 floors, attack cadence, soul, PvP permission.
#[derive(Debug, Clone, Copy, PartialEq, Eq, Structural)]
pub struct VocationProfile {
    pub id: i32,
    /// The base vocation; differs from `id` when promoted.
    pub from_vocation: i32,
    pub base_speed: i32,
    pub gain_hp: i32,
    pub gain_mana: i32,
    pub gain_cap: i32,
    pub base_hp: i32,
    pub base_mana: i32,
    pub base_cap: i32,
    pub attack_speed_ms: u32,
    pub soul_max: i32,
    pub gain_soul_ticks: u32,
    pub allow_pvp: bool,
}

/// `base + gain * (max(level, 1) - 1)`.
pub open spec fn grown(base: i32, gain: i32, level: i32) -> int {
    let l: int = if level < 1 { 1 } else { level as int };
    base + gain * (l - 1)
}

pub open spec fn fits_i32(v: int) -> bool {
    i32::MIN <= v <= i32::MAX
}

/// Walking speed at `level`: 1500 when the group pins it, else by the model.
pub open spec fn walk_speed(model: StepSpeedModel, base_speed: i32, level: i32, set_max_speed: bool) -> int {
    let l: int = if level < 1 { 1 } else { level as int };
    if set_max_speed {
        1500
    } else {
        match model {
            StepSpeedModel::LinearGo => base_speed + (l - 1),
            StepSpeedModel::TfsLog => {
                let v = base_speed + 2 * (l - 1);
                if v < 10 { 10 } else if v > 1500 { 1500 } else { v }
            },
        }
    }
}

impl VocationProfile {
    /// Vocation 0 ("None"): base speed 70, gains 5 HP, 5 mana and 10 oz per level,
    /// floors 150 HP, 0 mana, 400 oz, 2000 ms attacks, 100 soul every 120 rounds, no PvP.
    pub fn none_vocation() -> (p: VocationProfile)
        ensures
            p == (VocationProfile {
                id: 0, from_vocation: 0, base_speed: 70, gain_hp: 5, gain_mana: 5, gain_cap: 1000,
                base_hp: 150, base_mana: 0, base_cap: 40000, attack_speed_ms: 2000, soul_max: 100,
                gain_soul_ticks: 120, allow_pvp: false,
            }),
    {
        VocationProfile {
            id: 0, from_vocation: 0, base_speed: 70, gain_hp: 5, gain_mana: 5, gain_cap: 1000,
            base_hp: 150, base_mana: 0, base_cap: 40000, attack_speed_ms: 2000, soul_max: 100,
            gain_soul_ticks: 120, allow_pvp: false,
        }
    }

    /// Per-level gains: health, mana, capacity.
    pub fn per_level_gains(&self) -> (r: (i32, i32, i32))
        ensures
            r == (self.gain_hp, self.gain_mana, self.gain_cap),
    {
        (self.gain_hp, self.gain_mana, self.gain_cap)
    }

    /// Whether the vitals at `level` fit `i32`.
    pub open spec fn vitals_fit(self, level: i32) -> bool {
        fits_i32(grown(self.base_hp, self.gain_hp, level)) && fits_i32(grown(self.base_mana, self.gain_mana, level))
            && fits_i32(grown(self.base_cap, self.gain_cap, level))
    }

    /// Maximum health, mana and capacity at `level` (levels below 1 as 1).
    pub fn recalculate_vitals(&self, level: i32) -> (r: (i32, i32, i32))
        requires
            self.vitals_fit(level),
        ensures
            r.0 == grown(self.base_hp, self.gain_hp, level),
            r.1 == grown(self.base_mana, self.gain_mana, level),
            r.2 == grown(self.base_cap, self.gain_cap, level),
    {
        let l: i64 = if level < 1 { 1 } else { level as i64 };
        let hp = self.base_hp as i64 + self.gain_hp as i64 * (l - 1);
        let mana = self.base_mana as i64 + self.gain_mana as i64 * (l - 1);
        let cap = self.base_cap as i64 + self.gain_cap as i64 * (l - 1);
        proof {
            assert(self.gain_hp as i64 * (l - 1) == self.gain_hp as int * (l - 1));
        }
        (hp as i32, mana as i32, cap as i32)
    }
}

/// The stored base walking speed at `level` (see `walk_speed`).
pub fn base_walk_speed(model: StepSpeedModel, profile: &VocationProfile, level: i32, set_max_speed: bool) -> (r: i32)
    requires
        fits_i32(profile.base_speed + 2 * ((if level < 1 { 1 } else { level as int }) - 1)),
    ensures
        r == walk_speed(model, profile.base_speed, level, set_max_speed),
{
    if set_max_speed {
        return 1500;
    }
    let l: i64 = if level < 1 { 1 } else { level as i64 };
    let base = profile.base_speed as i64;
    match model {
        StepSpeedModel::LinearGo => (base + (l - 1)) as i32,
        StepSpeedModel::TfsLog => {
            let v = base + 2 * (l - 1);
            if v < 10 { 10 } else if v > 1500 { 1500 } else { v as i32 }
        },
    }
}

} // verus!
