use tfs_core::combat::math::{
    apply_attack_mode, apply_defense_mode, armor_reduction, attack_speed_ms, condition_tick,
    defense_gate_ms, defense_value, distribute_experience, experience_for_level,
    experience_for_level_poly, melee_damage_after_defense_and_armor, probe_damage_ceiling,
    probe_hit, probe_value, pvp_kill_experience_amount, spell_damage, spell_damage_range,
    weapon_damage, ArmorReduction, DamageFormula, DotElement, FightMode, LevelExpModel,
    MechanicsProfile,
};
use tfs_core::creature::vocation::{experience_to_next_level, total_experience_for_level};

/// The classic constants with the modern era's differences that the formulas here
/// read: full armor and the TFS level curve.
fn modern() -> MechanicsProfile {
    let mut p = MechanicsProfile::classic();
    p.armor = ArmorReduction::Full;
    p.level_exp = LevelExpModel::Tfs;
    p
}

#[test]
fn attack_speed_uses_vocation_when_profile_is_zero() {
    assert_eq!(attack_speed_ms(&MechanicsProfile::classic(), None, 1500), 1500);
    assert_eq!(attack_speed_ms(&modern(), None, 1500), 1500);
}

#[test]
fn attack_speed_fixed_profile_and_tier2() {
    let mut p = MechanicsProfile::classic();
    p.attack_speed_ms = 2000;
    assert_eq!(attack_speed_ms(&p, None, 1500), 2000);
    assert_eq!(attack_speed_ms(&p, Some(700), 1500), 700);
    assert_eq!(attack_speed_ms(&p, Some(-5), 1500), 0);
    assert_eq!(defense_gate_ms(&p), 2000);
}

#[test]
fn fight_mode_modifiers_match_772_integer_shape() {
    let m = MechanicsProfile::classic();
    assert_eq!(apply_attack_mode(&m.fight_modes, FightMode::Offensive, 100), 120);
    assert_eq!(apply_attack_mode(&m.fight_modes, FightMode::Defensive, 100), 60);
    assert_eq!(apply_defense_mode(&m.fight_modes, FightMode::Offensive, 100), 60);
    assert_eq!(apply_defense_mode(&m.fight_modes, FightMode::Defensive, 100), 180);
    assert_eq!(apply_attack_mode(&m.fight_modes, FightMode::Balanced, 100), 100);
    for v in 1..=20 {
        assert_eq!(apply_attack_mode(&m.fight_modes, FightMode::Defensive, v), v - (v * 4) / 10, "defensive atk tenths for {v}");
        assert_eq!(apply_attack_mode(&m.fight_modes, FightMode::Offensive, v), v + (v * 2) / 10, "offensive atk tenths for {v}");
        assert_eq!(apply_defense_mode(&m.fight_modes, FightMode::Offensive, v), v - (v * 4) / 10, "offensive def tenths for {v}");
        assert_eq!(apply_defense_mode(&m.fight_modes, FightMode::Defensive, v), v + (v * 8) / 10, "defensive def tenths for {v}");
    }
}

#[test]
fn probe_value_matches_classic_formula_bounds() {
    let p = MechanicsProfile::classic();
    let mut max_seen = 0;
    for factor in 0..p.damage_probe.random_max {
        let v = probe_value(10, 50, p.damage_probe, factor);
        assert!((0..=49).contains(&v), "probe value {v} out of [0,49]");
        max_seen = max_seen.max(v);
    }
    assert!(max_seen >= 40, "expected high rolls to approach the cap, saw {max_seen}");
    assert_eq!(probe_damage_ceiling(10, 50, FightMode::Balanced, &p), 50);
}

#[test]
fn melee_damage_subtracts_defense_then_armor() {
    assert_eq!(melee_damage_after_defense_and_armor(100, 30, 20), 50);
    assert_eq!(melee_damage_after_defense_and_armor(40, 50, 10), 0);
    assert_eq!(melee_damage_after_defense_and_armor(100, 0, 200), 0);
}

#[test]
fn armor_full_vs_randomized_bounds() {
    assert_eq!(armor_reduction(&modern(), None, 30, 0), 30);
    let p = MechanicsProfile::classic();
    for roll in 0..15 {
        let r = armor_reduction(&p, None, 30, roll);
        assert!((15..=29).contains(&r), "randomized armor {r} out of [15,29]");
    }
    assert_eq!(armor_reduction(&p, None, 1, 0), 1);
}

#[test]
fn tier2_get_armor_reduction_overrides_native() {
    assert_eq!(armor_reduction(&MechanicsProfile::classic(), Some(42), 30, 0), 42);
}

#[test]
fn spell_damage_multiplier_and_clamps() {
    let m = MechanicsProfile::classic();
    assert_eq!(spell_damage(&m, None, 50, 30, 100, false, false), 190);
    assert_eq!(spell_damage(&m, None, 50, 30, 100, true, false), 100);
    assert_eq!(spell_damage(&m, None, 1, 1, 100, false, true), 100);
    assert_eq!(spell_damage(&m, Some(190), 1, 1, 100, false, false), 190);
}

#[test]
fn spell_damage_range_matches_compute_damage() {
    let m = MechanicsProfile::classic();
    assert_eq!(spell_damage_range(&m, None, None, 20, 10, 45, 10, false, false), (24, 38));
    assert_eq!(spell_damage_range(&m, Some(50), None, 20, 10, 45, 10, false, false), (38, 50));
}

#[test]
fn level_exp_curves_per_era() {
    let m1098 = modern();
    let m772 = MechanicsProfile::classic();
    assert_eq!(experience_for_level(&m1098, None, 1), 0);
    assert_eq!(experience_for_level(&m1098, None, 2), 100);
    assert_eq!(experience_for_level(&m1098, None, 8), 4200);
    assert_eq!(experience_for_level(&m772, None, 1), 0);
    assert_eq!(experience_for_level(&m772, None, 8), 4200);
    assert_eq!(experience_for_level(&m772, Some(77), 8), 77);
}

#[test]
fn experience_distribution_is_proportional() {
    assert_eq!(distribute_experience(1000, &[30, 70]), vec![300, 700]);
    assert_eq!(distribute_experience(1000, &[0, 0]), vec![0, 0]);
    assert_eq!(distribute_experience(999, &[5]), vec![999]);
}

#[test]
fn pvp_kill_experience_max_level_11_10() {
    let m = MechanicsProfile::classic();
    assert_eq!(pvp_kill_experience_amount(&m, 100, 100, 1000), 100);
    assert_eq!(pvp_kill_experience_amount(&m, 100, 110, 1000), 0);
    assert_eq!(pvp_kill_experience_amount(&m, 100, 120, 1000), 0);
    assert_eq!(pvp_kill_experience_amount(&m, 10, 8, 100), 30);
    assert_eq!(pvp_kill_experience_amount(&m, 10, 8, 0), 0);
}

#[test]
fn experience_for_level_poly_matches_total() {
    assert_eq!(experience_for_level_poly(1, 100), 0);
    assert_eq!(experience_for_level_poly(2, 100) as u64, total_experience_for_level(2));
    assert_eq!(experience_for_level_poly(8, 100) as u64, total_experience_for_level(8));
}

#[test]
fn experience_to_next_level_steps() {
    assert_eq!(total_experience_for_level(2), 100);
    assert_eq!(experience_to_next_level(1), 100);
    assert_eq!(experience_to_next_level(0), 0);
    assert_eq!(experience_to_next_level(7), total_experience_for_level(8) - total_experience_for_level(7));
}

#[test]
fn condition_ticks_from_profile() {
    let p = MechanicsProfile::classic();
    assert_eq!(condition_tick(&p, None, DotElement::Fire, 0), (10, 8));
    assert_eq!(condition_tick(&p, None, DotElement::Energy, 0), (25, 10));
    assert_eq!(condition_tick(&p, Some((1, 2)), DotElement::Energy, 0), (1, 2));
}

#[test]
fn startup_damage_tuning_changes_probe_shape() {
    let mut profile = MechanicsProfile::classic();
    profile.damage_probe.skill_mult = 1;
    profile.damage_probe.skill_base = 1;
    profile.damage_probe.random_max = 10;
    for factor in 0..10 {
        let v = weapon_damage(&profile, None, 10, 50, FightMode::Offensive, factor).unwrap();
        assert!(v >= 0);
        // Offensive attack 60, max 60 * (10 + 1) = 660.
        assert_eq!(v, factor * 660 / 10000);
    }
}

#[test]
fn weapon_damage_paths() {
    let mut p = MechanicsProfile::classic();
    assert_eq!(weapon_damage(&p, Some(-4), 10, 50, FightMode::Balanced, 10), Some(0));
    assert_eq!(weapon_damage(&p, None, 10, 50, FightMode::Balanced, 100), Some(50));
    p.damage_formula = DamageFormula::Modern;
    assert_eq!(weapon_damage(&p, None, 10, 50, FightMode::Balanced, 100), None);
}

#[test]
fn defense_value_paths() {
    let p = MechanicsProfile::classic();
    assert_eq!(defense_value(&p, Some(-1), 10, 20, FightMode::Balanced, 5), 0);
    // Defensive defense 20 -> 36, max 36 * 100 = 3600, factor 50 -> 18.
    assert_eq!(defense_value(&p, None, 10, 20, FightMode::Defensive, 50), 18);
}

#[test]
fn probe_hit_gates() {
    assert!(probe_hit(0, 0, 0, 99, 99));
    assert!(probe_hit(10, 5, 50, 10, 50));
    assert!(!probe_hit(9, 5, 50, 10, 0));
    assert!(!probe_hit(10, 5, 50, 0, 51));
}
