use tfs_core::creature::monster_inventory::{
    physical_hit_effect_772, roll_loot_count, splash_fluid_772, BloodType, MonsterInventory,
};

#[test]
fn blood_effects_and_splashes() {
    assert_eq!(physical_hit_effect_772(BloodType::Blood), 1);
    assert_eq!(physical_hit_effect_772(BloodType::Slime), 17);
    assert_eq!(physical_hit_effect_772(BloodType::Bones), 10);
    assert_eq!(physical_hit_effect_772(BloodType::Fire), 1);
    assert_eq!(physical_hit_effect_772(BloodType::Energy), 12);
    assert_eq!(splash_fluid_772(BloodType::Blood), Some(5));
    assert_eq!(splash_fluid_772(BloodType::Slime), Some(6));
    assert_eq!(splash_fluid_772(BloodType::Bones), None);
}

#[test]
fn empty_inventory_by_default() {
    let inv = MonsterInventory::default();
    assert!(inv.equipment.iter().all(|s| s.is_none()));
    assert_eq!(inv.bag, None);
}

#[test]
fn loot_counts_roll_within_range() {
    let mut rng = rand::thread_rng();
    for _ in 0..500 {
        assert_eq!(roll_loot_count(&mut rng, 0), 1);
        assert_eq!(roll_loot_count(&mut rng, -4), 1);
        let c = roll_loot_count(&mut rng, 5);
        assert!((1..=5).contains(&c));
    }
}
