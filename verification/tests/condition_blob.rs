use tfs_core::condition::{ActiveCondition, ConditionData, ConditionType};
use tfs_core::condition_blob::{deserialize_conditions, serialize_conditions};

fn cond(ctype: ConditionType, data: ConditionData, timer: Option<i32>) -> ActiveCondition {
    ActiveCondition::new(0, 0, ctype, data, timer)
}

#[test]
fn roundtrip_mana_shield_haste_invis() {
    let conds = vec![
        cond(ConditionType::ManaShield, ConditionData::Generic { ticks: 200_000 }, Some(200)),
        cond(ConditionType::Haste, ConditionData::Speed { flat_delta: 60 }, Some(30)),
        cond(ConditionType::Invisible, ConditionData::Generic { ticks: 200_000 }, Some(200)),
    ];
    let blob = serialize_conditions(&conds);
    assert!(!blob.is_empty());
    let loaded = deserialize_conditions(&blob);
    assert_eq!(loaded.len(), 3);
    assert_eq!(loaded[0].ctype, ConditionType::ManaShield);
    assert_eq!(loaded[0].timer_rounds_left, Some(200));
    assert_eq!(loaded[1].ctype, ConditionType::Haste);
    assert_eq!(loaded[1].data, ConditionData::Speed { flat_delta: 60 });
    assert_eq!(loaded[1].timer_rounds_left, Some(30));
    assert_eq!(loaded[2].ctype, ConditionType::Invisible);
    assert_eq!(loaded[2].timer_rounds_left, Some(200));
}

#[test]
fn skips_zero_timer() {
    let conds = vec![cond(ConditionType::ManaShield, ConditionData::Generic { ticks: 0 }, Some(0))];
    assert!(serialize_conditions(&conds).is_empty());
}

#[test]
fn header_bytes_are_little_endian() {
    let blob = serialize_conditions(&[cond(ConditionType::Invisible, ConditionData::Generic { ticks: 5 }, Some(2))]);
    assert_eq!(&blob[0..5], &[1, 0x80, 0, 0, 0]);
    assert_eq!(blob[5], 2);
    assert_eq!(&blob[10..15], &[3, 0xd0, 0x07, 0, 0]);
    assert_eq!(blob.len(), 25);
    assert_eq!(blob[24], 254);
}

#[test]
fn light_outfit_regen_round_trip() {
    let conds = vec![
        cond(ConditionType::Light, ConditionData::Light { level: 6, color: 215 }, Some(3)),
        cond(ConditionType::Outfit, ConditionData::Outfit { look_type: 70000, look_type_ex: 9 }, Some(1)),
        cond(ConditionType::Regeneration, ConditionData::Regeneration {
            health_gain: -3, health_ticks_ms: 2000, mana_gain: 4, mana_ticks_ms: 3000,
            health_elapsed_ms: 17, mana_elapsed_ms: 5,
        }, None),
        ActiveCondition::new(9, 0, ConditionType::Haste, ConditionData::Speed { flat_delta: 1 }, Some(5)),
    ];
    let loaded = deserialize_conditions(&serialize_conditions(&conds));
    assert_eq!(loaded.len(), 3, "a condition with a custom id is not saved");
    assert_eq!(loaded[0].data, ConditionData::Light { level: 6, color: 215 });
    assert_eq!(loaded[1].data, ConditionData::Outfit { look_type: 65535, look_type_ex: 9 });
    assert_eq!(loaded[2].data, ConditionData::Regeneration {
        health_gain: 0, health_ticks_ms: 2000, mana_gain: 4, mana_ticks_ms: 3000,
        health_elapsed_ms: 0, mana_elapsed_ms: 0,
    });
    assert_eq!(loaded[2].timer_rounds_left, Some(3));
}

#[test]
fn truncated_blob_loads_what_is_whole() {
    let blob = serialize_conditions(&[
        cond(ConditionType::ManaShield, ConditionData::Generic { ticks: 1 }, Some(4)),
        cond(ConditionType::Drunk, ConditionData::Generic { ticks: 1 }, Some(4)),
    ]);
    let loaded = deserialize_conditions(&blob[..blob.len() - 10]);
    assert_eq!(loaded.len(), 1);
    assert_eq!(loaded[0].ctype, ConditionType::ManaShield);
    assert!(deserialize_conditions(&[]).is_empty());
    assert!(deserialize_conditions(&[7, 7, 7]).is_empty());
}
