use tfs_core::creature::base::ActionTimers;
use tfs_core::creature::base::CreatureLinks;
use tfs_core::creature::light::LightInfo;
use tfs_core::creature::monster_combat::{monster_has_melee_strike, monster_weapon_attack_distance, MonsterFieldType};
use tfs_core::creature::player::{
    storage_key_is_outfit, take_outfits_from_storage, write_outfits_into_storage, OutfitEntry, PlayerProgress,
    PlayerSkills, PSTRG_OUTFITS_RANGE_START,
};
use tfs_core::creature::vocation::{base_walk_speed, StepSpeedModel, VocationProfile};

#[test]
fn brighter_light_wins() {
    let a = LightInfo { level: 3, color: 1 };
    let b = LightInfo { level: 5, color: 2 };
    assert_eq!(LightInfo::max_of(a, b), b);
    assert_eq!(LightInfo::max_of(b, b), b);
}

#[test]
fn monster_reach() {
    assert!(monster_has_melee_strike(10, 1));
    assert!(!monster_has_melee_strike(0, 1));
    assert!(!monster_has_melee_strike(10, 2));
    assert_eq!(monster_weapon_attack_distance(5, true), 1);
    assert_eq!(monster_weapon_attack_distance(0, true), 3);
    assert_eq!(monster_weapon_attack_distance(0, false), 1);
    assert_eq!(MonsterFieldType::Energy.code(), 3);
}

#[test]
fn skills_with_levels() {
    let s = PlayerSkills::with_levels(1, 2, 3, 4, 5, 6, 7, 8);
    assert_eq!((s.fist, s.maglevel, s.manaspent), (1, 8, 0));
    assert_eq!(PlayerSkills::default().sword, 10);
}

#[test]
fn outfit_storage_round_trip() {
    assert!(storage_key_is_outfit(PSTRG_OUTFITS_RANGE_START));
    assert!(storage_key_is_outfit(PSTRG_OUTFITS_RANGE_START + 500));
    assert!(!storage_key_is_outfit(PSTRG_OUTFITS_RANGE_START + 501));
    assert!(!storage_key_is_outfit(5));
    let mut storage = vec![(5, 1), (PSTRG_OUTFITS_RANGE_START + 3, 0), (6, 2)];
    let outfits = vec![OutfitEntry { look_type: 128, addons: 3 }, OutfitEntry { look_type: 136, addons: 0 }];
    write_outfits_into_storage(&mut storage, &outfits);
    assert_eq!(storage, vec![(5, 1), (6, 2), (PSTRG_OUTFITS_RANGE_START + 1, (128 << 16) | 3), (PSTRG_OUTFITS_RANGE_START + 2, 136 << 16)]);
    let back = take_outfits_from_storage(&mut storage);
    assert_eq!(back, outfits);
    assert_eq!(storage, vec![(5, 1), (6, 2)]);
}

#[test]
fn base_walk_speed_models() {
    let mut v = VocationProfile::none_vocation();
    v.base_speed = 220;
    assert_eq!(base_walk_speed(StepSpeedModel::LinearGo, &v, 8, false), 227);
    assert_eq!(base_walk_speed(StepSpeedModel::TfsLog, &v, 8, false), 234);
    assert_eq!(base_walk_speed(StepSpeedModel::TfsLog, &v, 8, true), 1500);
    v.base_speed = 1490;
    assert_eq!(base_walk_speed(StepSpeedModel::TfsLog, &v, 8, false), 1500);
}

#[test]
fn recalculate_vitals_uses_vocation_floor_and_gains() {
    let knight = VocationProfile {
        id: 4,
        base_speed: 70,
        gain_hp: 15,
        gain_mana: 5,
        gain_cap: 2500,
        base_hp: 150,
        base_mana: 0,
        base_cap: 40000,
        ..VocationProfile::none_vocation()
    };
    let (hp, mana, cap) = knight.recalculate_vitals(8);
    assert_eq!(hp, 255);
    assert_eq!(mana, 35);
    assert_eq!(cap, 57500);
    let (hp1, mana1, cap1) = knight.recalculate_vitals(1);
    assert_eq!((hp1, mana1, cap1), (150, 0, 40000));
}

#[test]
fn none_vocation_vitals() {
    let v = VocationProfile::none_vocation();
    assert_eq!(v.recalculate_vitals(1), (150, 0, 40000));
    assert_eq!(v.recalculate_vitals(0), (150, 0, 40000));
    assert_eq!(v.recalculate_vitals(11), (200, 50, 50000));
    assert_eq!(v.per_level_gains(), (5, 5, 1000));
}

#[test]
fn base_walk_speed_matches_decompile_advance() {
    let profile = VocationProfile { base_speed: 220, ..VocationProfile::none_vocation() };
    assert_eq!(base_walk_speed(StepSpeedModel::LinearGo, &profile, 8, false), 227);
    let shipped = VocationProfile::none_vocation();
    assert_eq!(base_walk_speed(StepSpeedModel::LinearGo, &shipped, 8, false), 77);
    assert_eq!(base_walk_speed(StepSpeedModel::LinearGo, &shipped, 1, false), 70);
    assert_eq!(base_walk_speed(StepSpeedModel::TfsLog, &profile, 8, false), 234);
    assert_eq!(base_walk_speed(StepSpeedModel::LinearGo, &profile, 8, true), 1500);
    assert_eq!(base_walk_speed(StepSpeedModel::TfsLog, &shipped, 1, true), 1500);
}

fn fresh() -> PlayerProgress {
    let v = VocationProfile::none_vocation();
    PlayerProgress {
        level: 1,
        experience: 0,
        health: 150,
        max_health: 150,
        mana: 0,
        max_mana: 0,
        capacity: 40000,
        speed: 70,
        base_speed: 70,
        vocation_profile: v,
        set_max_speed: false,
    }
}

#[test]
fn experience_levels_up_and_down() {
    let mut p = fresh();
    assert!(!p.add_experience(99, StepSpeedModel::LinearGo));
    assert!(p.add_experience(1, StepSpeedModel::LinearGo));
    assert_eq!(p.level, 2);
    assert_eq!(p.max_health, 155);
    assert_eq!(p.health, 155);
    assert_eq!(p.speed, 71);
    assert!(p.add_experience(4100, StepSpeedModel::LinearGo));
    assert_eq!(p.level, 8);
    assert_eq!(p.experience, 4200);
    assert!(p.remove_experience(1, StepSpeedModel::LinearGo));
    assert_eq!(p.level, 7);
    assert!(p.remove_experience(u64::MAX, StepSpeedModel::LinearGo));
    assert_eq!(p.level, 1);
    assert_eq!(p.experience, 0);
    assert!(p.health >= 1);
}

#[test]
fn exp_to_next_level_of_progress() {
    let mut p = fresh();
    assert_eq!(p.exp_to_next_level(), 100);
    p.level = 7;
    assert_eq!(p.exp_to_next_level(), 4200 - 2600);
    p.level = 0;
    assert_eq!(p.exp_to_next_level(), 0);
}

#[test]
fn action_timers_only_move_later() {
    let mut t = ActionTimers {
        earliest_attack_ms: 500,
        earliest_walk_server_ms: 0,
        earliest_spell_server_ms: 0,
        earliest_multiuse_server_ms: 0,
    };
    t.delay_attack_ms(100, 200);
    assert_eq!(t.earliest_attack_ms, 500);
    t.delay_attack_ms(400, 200);
    assert_eq!(t.earliest_attack_ms, 600);
    t.delay_spell_ms(u64::MAX - 1, 10);
    assert_eq!(t.earliest_spell_server_ms, u64::MAX);
    assert!(!t.spell_ready_at(1000));
    t.delay_multiuse_ms(1000, 1000);
    assert!(t.multiuse_ready_at(2000));
    assert!(!t.multiuse_ready_at(1999));
    assert!(t.attack_ready_at(600, 0));
    assert!(!t.attack_ready_at(600, 700));
    assert!(t.walk_action_ready_at(0));
    assert_eq!(t.earliest_action_block_ms(1500), Some(u64::MAX));
    let t2 = ActionTimers { earliest_attack_ms: 0, earliest_walk_server_ms: 10, earliest_spell_server_ms: 30, earliest_multiuse_server_ms: 20 };
    assert_eq!(t2.earliest_action_block_ms(5), Some(30));
    assert_eq!(t2.earliest_action_block_ms(30), None);
}

#[test]
fn creature_links_clear_only_their_target() {
    let mut l = CreatureLinks { follow_target: Some(3), attack_target: Some(4), master: None };
    assert!(!l.is_summon());
    l.clear_follow_for_target(4);
    assert_eq!(l.follow_target, Some(3));
    l.clear_attack_for_target(4);
    assert_eq!(l.attack_target, None);
    l.clear_targets();
    assert_eq!(l.follow_target, None);
    let s = CreatureLinks { follow_target: None, attack_target: None, master: Some(9) };
    assert!(s.is_summon());
}
