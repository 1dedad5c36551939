//! Era-tunable combat, experience and condition formulas.
//!
//! Pure functions over a [`MechanicsProfile`] (the era constants). A scripted
//! Tier-2 override, where the caller has one, is handed in as the value the script
//! returned (`tier2`); it wins over the native formula. Random draws are handed in
//! as the values the world's random stream produced.
//!
//! - Weapon / defense probe: `random_factor * Max / 10000` with
//!   `Max = attack * (skill * skill_mult + skill_base)`.
//! - Fight modes: `Max + (Max * k) / 10` with `k` the era's tenths (classic
//!   offensive +2/-4, defensive -4/+8 for attack/defense).
//! - Melee: `max(0, attack - defense)`, then armor.
//! - Level experience: `(((L-6)*L+17)*L-12)/6 * delta`.
//! - Spell damage: `base * (level_mult*level + magic_mult*magicLevel) / 100`, with
//!   optional 100% cap / floor.
//! - Experience split proportional to damage; PvP share scaled by `MaxLevel = L*num/den`.

use vstd::prelude::*;

verus! {

/// Player fight stance.
#[derive(Debug, Clone, Copy, PartialEq, Eq, Structural)]
pub enum FightMode {
    Offensive,
    Balanced,
    Defensive,
}

impl FightMode {
    /// Wire byte of the fight-modes packet: 1 = offensive, 3 = defensive, anything else balanced.
    pub fn from_wire(raw: u8) -> (m: FightMode)
        ensures
            m == (if raw == 1 { FightMode::Offensive } else if raw == 3 { FightMode::Defensive } else { FightMode::Balanced }),
    {
        match raw {
            1 => FightMode::Offensive,
            3 => FightMode::Defensive,
            _ => FightMode::Balanced,
        }
    }

    /// Integer code handed to Tier-2 scripts: 1 / 2 / 3.
    pub fn code(self) -> (c: i32)
        ensures
            c == (match self { FightMode::Offensive => 1i32, FightMode::Balanced => 2i32, FightMode::Defensive => 3i32 }),
    {
        match self {
            FightMode::Offensive => 1,
            FightMode::Balanced => 2,
            FightMode::Defensive => 3,
        }
    }
}

/// Fight-mode scaling as integer tenths `k` in `Max + (Max * k) / 10`.
#[derive(Debug, Clone, Copy, PartialEq, Eq, Structural)]
pub struct FightModes {
    pub offensive_atk_tenths: i32,
    pub defensive_atk_tenths: i32,
    pub offensive_def_tenths: i32,
    pub defensive_def_tenths: i32,
}

/// Probe roll tuning: `Max = attack * (skill * skill_mult + skill_base)`.
#[derive(Debug, Clone, Copy, PartialEq, Eq, Structural)]
pub struct DamageProbeTuning {
    pub skill_mult: i32,
    pub skill_base: i32,
    /// Upper bound (exclusive) of the random factor.
    pub random_max: i32,
}

/// Which melee weapon damage formula applies.
#[derive(Debug, Clone, Copy, PartialEq, Eq, Structural)]
pub enum DamageFormula {
    /// Fight-mode-scaled attack through the probe roll.
    ClassicProbe,
    /// Maximum weapon damage with a triangular roll (floating point; computed outside
    /// this library).
    Modern,
}

/// How armor mitigates damage.
#[derive(Debug, Clone, Copy, PartialEq, Eq, Structural)]
pub enum ArmorReduction {
    /// Subtract the full armor value.
    Full,
    /// `half + random(0..half)` with `half = armor / divisor` once armor reaches the minimum.
    Randomized,
}

#[derive(Debug, Clone, Copy, PartialEq, Eq, Structural)]
pub struct ArmorRandomTuning {
    pub min_armor_for_random: i32,
    pub divisor: i32,
}

#[derive(Debug, Clone, Copy, PartialEq, Eq, Structural)]
pub struct SpellCoefficients {
    pub level_mult: i32,
    pub magic_mult: i32,
}

/// Level-experience curve family; both use the same polynomial with `level_exp_delta`.
#[derive(Debug, Clone, Copy, PartialEq, Eq, Structural)]
pub enum LevelExpModel {
    Tfs,
    DeltaPoly,
}

/// Damage per event and event interval of a damage-over-time condition.
#[derive(Debug, Clone, Copy, PartialEq, Eq, Structural)]
pub struct DotTick {
    pub dmg: i32,
    pub ticks: i32,
}

#[derive(Debug, Clone, Copy, PartialEq, Eq, Structural)]
pub struct ConditionTicks {
    pub fire: DotTick,
    pub energy: DotTick,
}

/// Era constants of the combat formulas.
#[derive(Debug, Clone, Copy, PartialEq, Eq, Structural)]
pub struct MechanicsProfile {
    /// Milliseconds between attacks; 0 = use the vocation / weapon value.
    pub attack_speed_ms: u32,
    /// Defense re-roll gate in milliseconds.
    pub defense_gate_ms: u32,
    pub fight_modes: FightModes,
    pub damage_formula: DamageFormula,
    pub damage_probe: DamageProbeTuning,
    pub armor: ArmorReduction,
    pub armor_random: ArmorRandomTuning,
    pub spell_coeff: SpellCoefficients,
    pub level_exp: LevelExpModel,
    pub level_exp_delta: i64,
    pub pvp_exp_cap_num: u32,
    pub pvp_exp_cap_den: u32,
    pub conditions: ConditionTicks,
}

impl MechanicsProfile {
    /// The classic-era constants: attack cadence from the vocation or weapon, a 2000 ms
    /// defense gate, fight modes +2/-4 attack and
    /// -4/+8 defense tenths, probe `attack * (skill * 5 + 50)` over factor `0..100`,
    /// randomized armor `(A/2) + rand % (A/2)` from `A >= 2`, spell `2*level + 3*magic`,
    /// level delta 100, PvP cap 11/10, fire 10 per 8 and energy 25 per 10.
    pub fn classic() -> (p: MechanicsProfile)
        ensures
            p.attack_speed_ms == 0 && p.defense_gate_ms == 2000,
            p.fight_modes == (FightModes { offensive_atk_tenths: 2i32, defensive_atk_tenths: -4i32, offensive_def_tenths: -4i32, defensive_def_tenths: 8i32 }),
            p.damage_formula == DamageFormula::ClassicProbe,
            p.damage_probe == (DamageProbeTuning { skill_mult: 5, skill_base: 50, random_max: 100 }),
            p.armor == ArmorReduction::Randomized,
            p.armor_random == (ArmorRandomTuning { min_armor_for_random: 2, divisor: 2 }),
            p.spell_coeff == (SpellCoefficients { level_mult: 2, magic_mult: 3 }),
            p.level_exp == LevelExpModel::DeltaPoly && p.level_exp_delta == 100,
            p.pvp_exp_cap_num == 11 && p.pvp_exp_cap_den == 10,
            p.conditions == (ConditionTicks { fire: DotTick { dmg: 10, ticks: 8 }, energy: DotTick { dmg: 25, ticks: 10 } }),
    {
        MechanicsProfile {
            attack_speed_ms: 0,
            defense_gate_ms: 2000,
            fight_modes: FightModes { offensive_atk_tenths: 2, defensive_atk_tenths: -4, offensive_def_tenths: -4, defensive_def_tenths: 8 },
            damage_formula: DamageFormula::ClassicProbe,
            damage_probe: DamageProbeTuning { skill_mult: 5, skill_base: 50, random_max: 100 },
            armor: ArmorReduction::Randomized,
            armor_random: ArmorRandomTuning { min_armor_for_random: 2, divisor: 2 },
            spell_coeff: SpellCoefficients { level_mult: 2, magic_mult: 3 },
            level_exp: LevelExpModel::DeltaPoly,
            level_exp_delta: 100,
            pvp_exp_cap_num: 11,
            pvp_exp_cap_den: 10,
            conditions: ConditionTicks { fire: DotTick { dmg: 10, ticks: 8 }, energy: DotTick { dmg: 25, ticks: 10 } },
        }
    }
}

// ---------------------------------------------------------------------------
// Integer helpers
// ---------------------------------------------------------------------------

pub open spec fn max0(x: int) -> int {
    if x < 0 { 0 } else { x }
}

/// `x` clamped into the `i32` range (saturating arithmetic).
pub open spec fn sat_i32(x: int) -> int {
    if x > i32::MAX { i32::MAX as int } else if x < i32::MIN { i32::MIN as int } else { x }
}

/// Division truncating toward zero, as Rust's `/` on signed integers (`b > 0`).
pub open spec fn trunc_div(a: int, b: int) -> int {
    if a >= 0 { a / b } else { -((-a) / b) }
}

pub open spec fn in_i32(x: int) -> bool {
    i32::MIN <= x <= i32::MAX
}

fn sat_mul_i32(a: i32, b: i32) -> (r: i32)
    ensures
        r == sat_i32(a * b),
{
    assert(-0x4000_0000_0000_0000 <= (a as int) * (b as int) <= 0x4000_0000_0000_0000) by (nonlinear_arith)
        requires -0x8000_0000 <= a <= 0x7fff_ffff, -0x8000_0000 <= b <= 0x7fff_ffff;
    let p = (a as i64) * (b as i64);
    if p > i32::MAX as i64 {
        i32::MAX
    } else if p < i32::MIN as i64 {
        i32::MIN
    } else {
        p as i32
    }
}

fn sat_add_i32(a: i32, b: i32) -> (r: i32)
    ensures
        r == sat_i32(a + b),
{
    let p = (a as i64) + (b as i64);
    if p > i32::MAX as i64 {
        i32::MAX
    } else if p < i32::MIN as i64 {
        i32::MIN
    } else {
        p as i32
    }
}

fn div_trunc_i32(a: i32, b: i32) -> (r: i32)
    requires
        b > 0,
    ensures
        r == trunc_div(a as int, b as int),
{
    let wide = a as i64;
    if wide >= 0 {
        (wide / (b as i64)) as i32
    } else {
        let q = (-wide) / (b as i64);
        assert(q <= 2147483648) by (nonlinear_arith)
            requires q == (-(wide as int)) / (b as int), -wide <= 2147483648, b >= 1;
        (-q) as i32
    }
}

fn max0_i32(x: i32) -> (r: i32)
    ensures
        r == max0(x as int),
{
    if x < 0 { 0 } else { x }
}

// ---------------------------------------------------------------------------
// Attack / defense cadence
// ---------------------------------------------------------------------------

pub open spec fn spec_attack_speed_ms(profile: MechanicsProfile, tier2: Option<i32>, vocation_attack_speed_ms: i32) -> int {
    match tier2 {
        Some(ms) => max0(ms as int),
        None => if profile.attack_speed_ms == 0 {
            max0(vocation_attack_speed_ms as int)
        } else {
            profile.attack_speed_ms as i32 as int
        },
    }
}

/// Milliseconds between attacks: the Tier-2 value when there is one (not below 0),
/// else the profile's fixed cadence, or the vocation / weapon value when the
/// profile's is 0.
pub fn attack_speed_ms(profile: &MechanicsProfile, tier2: Option<i32>, vocation_attack_speed_ms: i32) -> (r: i32)
    ensures
        r == spec_attack_speed_ms(*profile, tier2, vocation_attack_speed_ms),
{
    if let Some(ms) = tier2 {
        return max0_i32(ms);
    }
    if profile.attack_speed_ms == 0 {
        max0_i32(vocation_attack_speed_ms)
    } else {
        profile.attack_speed_ms as i32
    }
}

/// Defense re-roll gate in milliseconds.
pub fn defense_gate_ms(profile: &MechanicsProfile) -> (r: i32)
    ensures
        r == profile.defense_gate_ms as i32,
{
    profile.defense_gate_ms as i32
}

// ---------------------------------------------------------------------------
// Fight-mode modifiers
// ---------------------------------------------------------------------------

/// `Max + (Max * k) / 10` in saturating `i32` arithmetic, the division truncating.
pub open spec fn spec_apply_tenths(max_value: i32, tenths: i32) -> int {
    sat_i32(max_value + trunc_div(sat_i32(max_value * tenths), 10))
}

fn apply_mode_integer_tenths(max_value: i32, tenths: i32) -> (r: i32)
    ensures
        r == spec_apply_tenths(max_value, tenths),
{
    let scaled = sat_mul_i32(max_value, tenths);
    let part = div_trunc_i32(scaled, 10);
    sat_add_i32(max_value, part)
}

pub open spec fn attack_tenths(modes: FightModes, mode: FightMode) -> i32 {
    match mode {
        FightMode::Offensive => modes.offensive_atk_tenths,
        FightMode::Defensive => modes.defensive_atk_tenths,
        FightMode::Balanced => 0,
    }
}

pub open spec fn defense_tenths(modes: FightModes, mode: FightMode) -> i32 {
    match mode {
        FightMode::Offensive => modes.offensive_def_tenths,
        FightMode::Defensive => modes.defensive_def_tenths,
        FightMode::Balanced => 0,
    }
}

/// Fight-mode-scaled attack value.
pub fn apply_attack_mode(modes: &FightModes, mode: FightMode, max_value: i32) -> (r: i32)
    ensures
        r == spec_apply_tenths(max_value, attack_tenths(*modes, mode)),
{
    let k = match mode {
        FightMode::Offensive => modes.offensive_atk_tenths,
        FightMode::Defensive => modes.defensive_atk_tenths,
        FightMode::Balanced => 0,
    };
    apply_mode_integer_tenths(max_value, k)
}

/// Fight-mode-scaled defense value.
pub fn apply_defense_mode(modes: &FightModes, mode: FightMode, max_value: i32) -> (r: i32)
    ensures
        r == spec_apply_tenths(max_value, defense_tenths(*modes, mode)),
{
    let k = match mode {
        FightMode::Offensive => modes.offensive_def_tenths,
        FightMode::Defensive => modes.defensive_def_tenths,
        FightMode::Balanced => 0,
    };
    apply_mode_integer_tenths(max_value, k)
}

// ---------------------------------------------------------------------------
// Probe rolls
// ---------------------------------------------------------------------------

/// `skill * skill_mult + skill_base` with each term at least 0, saturating.
pub open spec fn probe_skill_term(skill: i32, tuning: DamageProbeTuning) -> int {
    sat_i32(sat_i32(max0(skill as int) * max0(tuning.skill_mult as int)) + max0(tuning.skill_base as int))
}

/// `Max = max(attack, 0) * skill term`.
pub open spec fn probe_max(skill: i32, attack: i32, tuning: DamageProbeTuning) -> int {
    max0(attack as int) * probe_skill_term(skill, tuning)
}

/// The probe roll stays within `i32` (beyond it the arithmetic would overflow).
pub open spec fn probe_fits(skill: i32, attack: i32, tuning: DamageProbeTuning, random_factor: int) -> bool {
    in_i32(probe_max(skill, attack, tuning)) && in_i32(random_factor * probe_max(skill, attack, tuning))
}

pub open spec fn spec_probe(skill: i32, attack: i32, tuning: DamageProbeTuning, random_factor: int) -> int {
    trunc_div(random_factor * probe_max(skill, attack, tuning), 10000)
}

fn probe_max_value(skill: i32, attack: i32, tuning: DamageProbeTuning) -> (m: i32)
    requires
        in_i32(probe_max(skill, attack, tuning)),
    ensures
        m == probe_max(skill, attack, tuning),
{
    let term = sat_add_i32(sat_mul_i32(max0_i32(skill), max0_i32(tuning.skill_mult)), max0_i32(tuning.skill_base));
    let a = max0_i32(attack);
    ((a as i64) * (term as i64)) as i32
}

/// One probe roll with the factor the world's random stream drew.
pub fn probe_value(skill: i32, attack: i32, tuning: DamageProbeTuning, random_factor: i32) -> (r: i32)
    requires
        probe_fits(skill, attack, tuning, random_factor as int),
    ensures
        r == spec_probe(skill, attack, tuning, random_factor as int),
{
    let max_value = probe_max_value(skill, attack, tuning);
    let prod = ((random_factor as i64) * (max_value as i64)) as i32;
    div_trunc_i32(prod, 10000)
}

/// One probe sample with a pre-rolled factor (clamped to at least 0); `attack`
/// already carries the fight-mode scaling.
pub fn classic_probe_sample_raw(skill: i32, attack: i32, tuning: DamageProbeTuning, random_factor: i32) -> (r: i32)
    requires
        probe_fits(skill, attack, tuning, max0(random_factor as int)),
    ensures
        r == spec_probe(skill, attack, tuning, max0(random_factor as int)),
{
    let max_value = probe_max_value(skill, attack, tuning);
    let rf = max0_i32(random_factor);
    let prod = ((rf as i64) * (max_value as i64)) as i32;
    div_trunc_i32(prod, 10000)
}

/// Fight-mode-scaled probe sample.
pub fn classic_probe_sample(profile: &MechanicsProfile, skill: i32, attack: i32, mode: FightMode, random_factor: i32) -> (r: i32)
    requires
        probe_fits(skill, spec_apply_tenths(attack, attack_tenths(profile.fight_modes, mode)) as i32,
            profile.damage_probe, max0(random_factor as int)),
    ensures
        r == spec_probe(skill, spec_apply_tenths(attack, attack_tenths(profile.fight_modes, mode)) as i32,
            profile.damage_probe, max0(random_factor as int)),
{
    let modified_attack = apply_attack_mode(&profile.fight_modes, mode, attack);
    classic_probe_sample_raw(skill, modified_attack, profile.damage_probe, random_factor)
}

/// Deterministic ceiling of the probe: the sample at factor `max(random_max, 0)`.
pub fn probe_damage_ceiling(skill: i32, attack: i32, mode: FightMode, profile: &MechanicsProfile) -> (r: i32)
    requires
        probe_fits(skill, spec_apply_tenths(attack, attack_tenths(profile.fight_modes, mode)) as i32,
            profile.damage_probe, max0(profile.damage_probe.random_max as int)),
    ensures
        r == spec_probe(skill, spec_apply_tenths(attack, attack_tenths(profile.fight_modes, mode)) as i32,
            profile.damage_probe, max0(profile.damage_probe.random_max as int)),
{
    let modified_attack = apply_attack_mode(&profile.fight_modes, mode, attack);
    classic_probe_sample_raw(skill, modified_attack, profile.damage_probe, max0_i32(profile.damage_probe.random_max))
}

/// Rolled weapon damage: the Tier-2 value when given (not below 0), else with the probe
/// formula the fight-mode-scaled probe roll with the drawn factor (not below 0); `None`
/// under the modern formula, whose floating-point roll is made outside this library.
pub fn weapon_damage(profile: &MechanicsProfile, tier2: Option<i32>, skill: i32, attack: i32, mode: FightMode, random_factor: i32) -> (r: Option<i32>)
    requires
        tier2 is None && profile.damage_formula is ClassicProbe ==>
            probe_fits(skill, spec_apply_tenths(attack, attack_tenths(profile.fight_modes, mode)) as i32,
                profile.damage_probe, random_factor as int),
    ensures
        r == match tier2 {
            Some(v) => Some(max0(v as int) as i32),
            None => match profile.damage_formula {
                DamageFormula::ClassicProbe => Some(max0(spec_probe(skill,
                    spec_apply_tenths(attack, attack_tenths(profile.fight_modes, mode)) as i32,
                    profile.damage_probe, random_factor as int)) as i32),
                DamageFormula::Modern => None,
            },
        },
{
    if let Some(v) = tier2 {
        return Some(max0_i32(v));
    }
    match profile.damage_formula {
        DamageFormula::ClassicProbe => {
            let modified_attack = apply_attack_mode(&profile.fight_modes, mode, attack);
            Some(max0_i32(probe_value(skill, modified_attack, profile.damage_probe, random_factor)))
        },
        DamageFormula::Modern => None,
    }
}

/// Rolled defense: the Tier-2 value when given (not below 0), else the
/// fight-mode-scaled defense through the probe (not below 0).
pub fn defense_value(profile: &MechanicsProfile, tier2: Option<i32>, skill: i32, defense: i32, mode: FightMode, random_factor: i32) -> (r: i32)
    requires
        tier2 is None ==> probe_fits(skill, spec_apply_tenths(defense, defense_tenths(profile.fight_modes, mode)) as i32,
            profile.damage_probe, random_factor as int),
    ensures
        r == match tier2 {
            Some(v) => max0(v as int),
            None => max0(spec_probe(skill, spec_apply_tenths(defense, defense_tenths(profile.fight_modes, mode)) as i32,
                profile.damage_probe, random_factor as int)),
        },
{
    if let Some(v) = tier2 {
        return max0_i32(v);
    }
    let modified_defense = apply_defense_mode(&profile.fight_modes, mode, defense);
    max0_i32(probe_value(skill, modified_defense, profile.damage_probe, random_factor))
}

// ---------------------------------------------------------------------------
// Armor
// ---------------------------------------------------------------------------

/// `max(armor / max(divisor, 1), 1)` — the fixed half of a randomized armor roll.
pub open spec fn armor_half(profile: MechanicsProfile, armor: i32) -> int {
    let div = if profile.armor_random.divisor < 1 { 1 } else { profile.armor_random.divisor as int };
    let h = trunc_div(armor as int, div);
    if h < 1 { 1 } else { h }
}

/// The randomized armor roll applies (randomized era and armor at least the minimum).
pub open spec fn armor_is_randomized(profile: MechanicsProfile, armor: i32) -> bool {
    profile.armor == ArmorReduction::Randomized && armor >= max0(profile.armor_random.min_armor_for_random as int)
}

/// Effective armor mitigation: Tier-2 value when given (not below 0); full armor
/// (not below 0); or, randomized, `half + extra` where `extra` is the draw in `0..half`.
pub fn armor_reduction(profile: &MechanicsProfile, tier2: Option<i32>, armor: i32, extra: i32) -> (r: i32)
    requires
        tier2 is None && armor_is_randomized(*profile, armor) ==> 0 <= extra < armor_half(*profile, armor)
            && armor_half(*profile, armor) + extra <= i32::MAX,
    ensures
        r == match tier2 {
            Some(v) => max0(v as int),
            None => if armor_is_randomized(*profile, armor) {
                armor_half(*profile, armor) + extra
            } else {
                max0(armor as int)
            },
        },
{
    if let Some(v) = tier2 {
        return max0_i32(v);
    }
    match profile.armor {
        ArmorReduction::Full => max0_i32(armor),
        ArmorReduction::Randomized => {
            let min_armor = max0_i32(profile.armor_random.min_armor_for_random);
            let div = if profile.armor_random.divisor < 1 { 1 } else { profile.armor_random.divisor };
            if armor >= min_armor {
                let h = div_trunc_i32(armor, div);
                let half = if h < 1 { 1 } else { h };
                half + extra
            } else {
                max0_i32(armor)
            }
        },
    }
}

/// Final melee damage to hit points: `max(0, attack - defense)`, then armor
/// (armor below 0 counts as 0), never below 0.
pub fn melee_damage_after_defense_and_armor(attack: i32, defense: i32, armor: i32) -> (r: i32)
    requires
        in_i32(attack - defense),
    ensures
        r == max0(max0(attack - defense) - max0(armor as int)),
{
    let after_defense = max0_i32(attack - defense);
    max0_i32(after_defense - max0_i32(armor))
}

/// Distance hit probe. `diff == 0` always hits (and draws nothing); otherwise the hit
/// needs `skill >= diff_roll` (the draw in `0..max(diff, 1)`) and `chance_roll <= prob`
/// (the draw in `0..100`).
pub fn probe_hit(skill: i32, diff: i32, prob: i32, diff_roll: i32, chance_roll: i32) -> (r: bool)
    ensures
        r == (diff == 0 || (skill >= diff_roll && chance_roll <= prob)),
{
    if diff == 0 {
        return true;
    }
    if skill < diff_roll {
        return false;
    }
    chance_roll <= prob
}

// ---------------------------------------------------------------------------
// Spell damage
// ---------------------------------------------------------------------------

pub open spec fn spec_spell_multiplier(profile: MechanicsProfile, level: i32, magic_level: i32, clamp_max_100: bool, clamp_min_100: bool) -> int {
    let m = profile.spell_coeff.level_mult * level + profile.spell_coeff.magic_mult * magic_level;
    let m1 = if clamp_max_100 && m > 100 { 100 } else { m };
    if clamp_min_100 && m1 < 100 { 100 } else { m1 }
}

/// The multiplier computation does not overflow `i32`.
pub open spec fn spell_multiplier_fits(profile: MechanicsProfile, level: i32, magic_level: i32) -> bool {
    in_i32(profile.spell_coeff.level_mult * level) && in_i32(profile.spell_coeff.magic_mult * magic_level)
        && in_i32(profile.spell_coeff.level_mult * level + profile.spell_coeff.magic_mult * magic_level)
}

/// Level / magic multiplier in percent, after the optional cap at 100 and floor at 100.
pub fn spell_formula_multiplier(profile: &MechanicsProfile, level: i32, magic_level: i32, clamp_max_100: bool, clamp_min_100: bool) -> (r: i32)
    requires
        spell_multiplier_fits(*profile, level, magic_level),
    ensures
        r == spec_spell_multiplier(*profile, level, magic_level, clamp_max_100, clamp_min_100),
{
    let mut mult = profile.spell_coeff.level_mult * level + profile.spell_coeff.magic_mult * magic_level;
    if clamp_max_100 && mult > 100 {
        mult = 100;
    }
    if clamp_min_100 && mult < 100 {
        mult = 100;
    }
    mult
}

pub open spec fn spec_spell_damage(profile: MechanicsProfile, level: i32, magic_level: i32, base: i32, clamp_max_100: bool, clamp_min_100: bool) -> int {
    trunc_div(base * spec_spell_multiplier(profile, level, magic_level, clamp_max_100, clamp_min_100), 100)
}

pub open spec fn spell_damage_fits(profile: MechanicsProfile, level: i32, magic_level: i32, base: int, clamp_max_100: bool, clamp_min_100: bool) -> bool {
    spell_multiplier_fits(profile, level, magic_level) && in_i32(base)
        && in_i32(base * spec_spell_multiplier(profile, level, magic_level, clamp_max_100, clamp_min_100))
}

/// Spell damage `base * multiplier / 100` (truncating), or the Tier-2 value.
pub fn spell_damage(profile: &MechanicsProfile, tier2: Option<i32>, level: i32, magic_level: i32, base: i32, clamp_max_100: bool, clamp_min_100: bool) -> (r: i32)
    requires
        tier2 is None ==> spell_damage_fits(*profile, level, magic_level, base as int, clamp_max_100, clamp_min_100),
    ensures
        r == match tier2 {
            Some(v) => v as int,
            None => spec_spell_damage(*profile, level, magic_level, base, clamp_max_100, clamp_min_100),
        },
{
    if let Some(v) = tier2 {
        return v;
    }
    let mult = spell_formula_multiplier(profile, level, magic_level, clamp_max_100, clamp_min_100);
    div_trunc_i32(base * mult, 100)
}

/// `(lo, hi)` of `damage ± variation` through the spell formula, ordered.
/// `tier2_lo` / `tier2_hi` are the Tier-2 results for the two bases, when the caller has them.
pub fn spell_damage_range(
    profile: &MechanicsProfile,
    tier2_lo: Option<i32>,
    tier2_hi: Option<i32>,
    level: i32,
    magic_level: i32,
    damage: i32,
    variation: i32,
    clamp_max_100: bool,
    clamp_min_100: bool,
) -> (r: (i32, i32))
    requires
        in_i32(damage - variation),
        in_i32(damage + variation),
        tier2_lo is None ==> spell_damage_fits(*profile, level, magic_level, damage - variation, clamp_max_100, clamp_min_100),
        tier2_hi is None ==> spell_damage_fits(*profile, level, magic_level, damage + variation, clamp_max_100, clamp_min_100),
    ensures
        ({
            let a = match tier2_lo {
                Some(v) => v as int,
                None => spec_spell_damage(*profile, level, magic_level, (damage - variation) as i32, clamp_max_100, clamp_min_100),
            };
            let b = match tier2_hi {
                Some(v) => v as int,
                None => spec_spell_damage(*profile, level, magic_level, (damage + variation) as i32, clamp_max_100, clamp_min_100),
            };
            r.0 == (if a <= b { a } else { b }) && r.1 == (if a <= b { b } else { a })
        }),
{
    let lo = spell_damage(profile, tier2_lo, level, magic_level, damage - variation, clamp_max_100, clamp_min_100);
    let hi = spell_damage(profile, tier2_hi, level, magic_level, damage + variation, clamp_max_100, clamp_min_100);
    if lo <= hi { (lo, hi) } else { (hi, lo) }
}

// ---------------------------------------------------------------------------
// Experience
// ---------------------------------------------------------------------------

/// `(((L-6)*L+17)*L-12)/6` for `L >= 2`, else 0.
pub open spec fn level_poly(level: int) -> int {
    if level <= 1 { 0 } else { (((level - 6) * level + 17) * level - 12) / 6 }
}

/// Cumulative experience to be `level` with curve step `delta`.
pub open spec fn spec_exp_for_level(level: int, delta: int) -> int {
    level_poly(level) * delta
}

/// The polynomial does not overflow `i64` for `level` and `delta`.
pub open spec fn exp_poly_fits(level: int, delta: int) -> bool {
    level <= 1 || (((level - 6) * level + 17) * level <= i64::MAX && i64::MIN <= level_poly(level) * delta <= i64::MAX)
}

/// Pure level-experience polynomial `(((L-6)*L+17)*L-12)/6 * delta`; 0 for `L <= 1`.
pub fn experience_for_level_poly(level: i64, delta: i64) -> (r: i64)
    requires
        exp_poly_fits(level as int, delta as int),
    ensures
        r == spec_exp_for_level(level as int, delta as int),
{
    if level <= 1 {
        assert(level_poly(level as int) == 0);
        assert(spec_exp_for_level(level as int, delta as int) == 0 * (delta as int));
        return 0;
    }
    let l = level;
    proof {
        let li = l as int;
        assert((li - 6) * li + 17 > 0 && (li - 6) * li + 17 <= ((li - 6) * li + 17) * li) by (nonlinear_arith)
            requires li >= 2;
        assert((li - 6) * li >= -9) by (nonlinear_arith)
            requires li >= 2;
        assert(((li - 6) * li + 17) * li - 12 > 0) by (nonlinear_arith)
            requires li >= 2;
    }
    let a = (l - 6) * l;
    let b = a + 17;
    let c = b * l;
    let d = c - 12;
    let e = d / 6;
    e * delta
}

/// Cumulative experience required to be `level`: the Tier-2 value when given,
/// else the polynomial with the profile's `level_exp_delta` (both curve models).
pub fn experience_for_level(profile: &MechanicsProfile, tier2: Option<i64>, level: i64) -> (r: i64)
    requires
        tier2 is None ==> exp_poly_fits(level as int, profile.level_exp_delta as int),
    ensures
        r == match tier2 {
            Some(v) => v as int,
            None => spec_exp_for_level(level as int, profile.level_exp_delta as int),
        },
{
    if let Some(v) = tier2 {
        return v;
    }
    match profile.level_exp {
        LevelExpModel::Tfs | LevelExpModel::DeltaPoly => experience_for_level_poly(level, profile.level_exp_delta),
    }
}

/// Sum of a sequence of shares.
pub open spec fn seq_sum(s: Seq<u64>) -> nat
    decreases s.len(),
{
    if s.len() == 0 { 0 } else { seq_sum(s.drop_last()) + (s.last() as nat) }
}

proof fn lemma_seq_sum_prefix(s: Seq<u64>, i: int)
    requires
        0 <= i < s.len(),
    ensures
        seq_sum(s.take(i + 1)) == seq_sum(s.take(i)) + s[i],
{
    assert(s.take(i + 1).drop_last() =~= s.take(i));
}

proof fn lemma_seq_sum_elem_le(s: Seq<u64>, i: int)
    requires
        0 <= i < s.len(),
    ensures
        s[i] <= seq_sum(s),
    decreases s.len(),
{
    if i < s.len() - 1 {
        lemma_seq_sum_elem_le(s.drop_last(), i);
    }
}

/// Each sharer's experience: `total * share / total_damage` (floor); all zero when
/// there is no damage or no experience.
pub open spec fn spec_exp_share(total_exp: u64, shares: Seq<u64>, i: int) -> int {
    if seq_sum(shares) == 0 || total_exp == 0 { 0 } else { (total_exp * shares[i]) / seq_sum(shares) as int }
}

/// Splits `total_exp` across sharers in proportion to the damage they dealt
/// (input order, integer floor per share; the remainder is dropped).
pub fn distribute_experience(total_exp: u64, damage_shares: &[u64]) -> (v: Vec<u64>)
    requires
        seq_sum(damage_shares@) <= u64::MAX,
    ensures
        v@.len() == damage_shares@.len(),
        forall|i: int| 0 <= i < v@.len() ==> v@[i] == spec_exp_share(total_exp, damage_shares@, i),
{
    let n = damage_shares.len();
    let mut total_damage: u64 = 0;
    let mut i: usize = 0;
    while i < n
        invariant
            n == damage_shares@.len(),
            0 <= i <= n,
            total_damage == seq_sum(damage_shares@.take(i as int)),
            seq_sum(damage_shares@) <= u64::MAX,
        decreases n - i,
    {
        proof {
            lemma_seq_sum_prefix(damage_shares@, i as int);
            assert(damage_shares@.take(n as int) =~= damage_shares@);
            lemma_seq_sum_take_le(damage_shares@, i as int + 1);
        }
        total_damage = total_damage + damage_shares[i];
        i = i + 1;
    }
    assert(damage_shares@.take(n as int) =~= damage_shares@);
    let mut out: Vec<u64> = Vec::new();
    let mut j: usize = 0;
    while j < n
        invariant
            n == damage_shares@.len(),
            0 <= j <= n,
            total_damage == seq_sum(damage_shares@),
            out@.len() == j,
            forall|k: int| 0 <= k < j ==> out@[k] == spec_exp_share(total_exp, damage_shares@, k),
        decreases n - j,
    {
        if total_damage == 0 || total_exp == 0 {
            out.push(0);
        } else {
            let dmg = damage_shares[j];
            proof {
                lemma_seq_sum_elem_le(damage_shares@, j as int);
                assert((total_exp as int) * (dmg as int) <= (total_exp as int) * (total_damage as int)) by (nonlinear_arith)
                    requires dmg <= total_damage;
                assert(((total_exp as int) * (dmg as int)) / (total_damage as int) <= total_exp) by (nonlinear_arith)
                    requires (total_exp as int) * (dmg as int) <= (total_exp as int) * (total_damage as int), total_damage > 0;
                assert((total_exp as int) * (dmg as int) <= u128::MAX) by (nonlinear_arith)
                    requires total_exp <= u64::MAX, dmg <= u64::MAX;
            }
            let share = ((total_exp as u128) * (dmg as u128) / (total_damage as u128)) as u64;
            out.push(share);
        }
        j = j + 1;
    }
    out
}

proof fn lemma_seq_sum_take_le(s: Seq<u64>, i: int)
    requires
        0 <= i <= s.len(),
    ensures
        seq_sum(s.take(i)) <= seq_sum(s),
    decreases s.len() - i,
{
    if i < s.len() {
        lemma_seq_sum_prefix(s, i);
        lemma_seq_sum_take_le(s, i + 1);
    } else {
        assert(s.take(i) =~= s);
    }
}

/// PvP kill share: with `MaxLevel = victim_level * num / den`, 0 when the attacker is
/// at or above `MaxLevel`, else `((MaxLevel - attacker_level) * amount) / victim_level`
/// (kept to its low 64 bits, as the `u64` conversion does).
pub open spec fn spec_pvp_kill_exp(profile: MechanicsProfile, victim_level: i32, attacker_level: i32, amount: u64) -> int {
    if amount == 0 || victim_level <= 0 || profile.pvp_exp_cap_den == 0 {
        0
    } else {
        let max_level = (victim_level * profile.pvp_exp_cap_num) / (profile.pvp_exp_cap_den as int);
        if attacker_level >= max_level {
            0
        } else {
            (((max_level - attacker_level) * amount) / (victim_level as int)) % 0x1_0000_0000_0000_0000
        }
    }
}

pub fn pvp_kill_experience_amount(profile: &MechanicsProfile, victim_level: i32, attacker_level: i32, amount: u64) -> (r: u64)
    ensures
        r == spec_pvp_kill_exp(*profile, victim_level, attacker_level, amount),
{
    if amount == 0 || victim_level <= 0 || profile.pvp_exp_cap_den == 0 {
        return 0;
    }
    let vl = victim_level as i64;
    let num = profile.pvp_exp_cap_num as i64;
    let den = profile.pvp_exp_cap_den as i64;
    assert(vl * num <= 0x7fff_ffff * 0xffff_ffff) by (nonlinear_arith)
        requires 0 < vl <= 0x7fff_ffff, 0 <= num <= 0xffff_ffff;
    assert(vl * num >= 0) by (nonlinear_arith)
        requires 0 < vl, 0 <= num;
    let max_level = (vl * num) / den;
    if attacker_level as i64 >= max_level {
        return 0;
    }
    assert(max_level <= vl * num) by (nonlinear_arith)
        requires max_level == (vl * num) as int / (den as int), den >= 1, vl * num >= 0;
    let diff = (max_level - attacker_level as i64) as u128;
    assert(diff <= 0x7fff_ffff * 0xffff_ffff + 0x8000_0000);
    assert((diff as int) * (amount as int) <= u128::MAX) by (nonlinear_arith)
        requires diff <= 0x8000_0000_0000_0000, amount <= 0xffff_ffff_ffff_ffff;
    let prod = diff * (amount as u128);
    let q = prod / (vl as u128);
    let r = #[verifier::truncate] (q as u64);
    assert(r == q % 0x1_0000_0000_0000_0000) by (bit_vector)
        requires r == #[verifier::truncate] (q as u64);
    r
}

// ---------------------------------------------------------------------------
// Condition ticks
// ---------------------------------------------------------------------------

/// Damage-over-time element selector for [`condition_tick`].
#[derive(Debug, Clone, Copy, PartialEq, Eq, Structural)]
pub enum DotElement {
    Fire,
    Energy,
}

impl DotElement {
    /// Integer code handed to Tier-2 scripts: fire 0, energy 1.
    pub fn code(self) -> (c: i32)
        ensures
            c == (match self { DotElement::Fire => 0i32, DotElement::Energy => 1i32 }),
    {
        match self {
            DotElement::Fire => 0,
            DotElement::Energy => 1,
        }
    }
}

/// `(damage per event, event interval)` of `element`: the Tier-2 pair when given,
/// else the profile's.
pub fn condition_tick(profile: &MechanicsProfile, tier2: Option<(i32, i32)>, element: DotElement, round: i32) -> (r: (i32, i32))
    ensures
        r == match tier2 {
            Some(t) => t,
            None => match element {
                DotElement::Fire => (profile.conditions.fire.dmg, profile.conditions.fire.ticks),
                DotElement::Energy => (profile.conditions.energy.dmg, profile.conditions.energy.ticks),
            },
        },
{
    if let Some(t) = tier2 {
        return t;
    }
    match element {
        DotElement::Fire => (profile.conditions.fire.dmg, profile.conditions.fire.ticks),
        DotElement::Energy => (profile.conditions.energy.dmg, profile.conditions.energy.ticks),
    }
}

} // verus!
