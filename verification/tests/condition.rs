use tfs_core::condition::{add_condition_merge, dot_tick_for_condition, ActiveCondition, ConditionData, ConditionType};
use tfs_core::combat::math::MechanicsProfile;

fn cond(id: u32, ctype: ConditionType, data: ConditionData, timer: Option<i32>) -> ActiveCondition {
    ActiveCondition::new(id, 0, ctype, data, timer)
}

#[test]
fn generic_merge_idempotent() {
    let mut v = vec![cond(1, ConditionType::Pz, ConditionData::Generic { ticks: 100 }, None)];
    let again = cond(2, ConditionType::Pz, ConditionData::Generic { ticks: 100 }, None);
    add_condition_merge(&mut v, again);
    let one = v.clone();
    add_condition_merge(&mut v, again);
    assert_eq!(one, v);
    assert_eq!(v.len(), 1);
    assert_eq!(v[0].id, 2);
}

#[test]
fn weaker_poison_does_not_refresh() {
    let strong = cond(1, ConditionType::Poison, ConditionData::Damage { total_rank: 50, factor_percent: 0 }, Some(10))
        .with_skill_timer(3, 3);
    let mut v = vec![strong];
    let weak = cond(2, ConditionType::Poison, ConditionData::Damage { total_rank: 20, factor_percent: 0 }, Some(99))
        .with_skill_timer(1, 4);
    add_condition_merge(&mut v, weak);
    assert_eq!(v, vec![strong]);
    let stronger = cond(3, ConditionType::Poison, ConditionData::Damage { total_rank: 80, factor_percent: 70 }, Some(5));
    add_condition_merge(&mut v, stronger);
    assert_eq!(v[0].data, ConditionData::Damage { total_rank: 80, factor_percent: 70 });
    assert_eq!(v[0].id, 3);
    assert_eq!(v[0].timer_rounds_left, Some(5));
    assert_eq!(v[0].skill_max_count, 3);
}

#[test]
fn speed_merge_keeps_the_stronger() {
    let mut v = vec![cond(1, ConditionType::Haste, ConditionData::Speed { flat_delta: 40 }, None)];
    add_condition_merge(&mut v, cond(2, ConditionType::Haste, ConditionData::Speed { flat_delta: 30 }, None));
    assert_eq!(v[0].data, ConditionData::Speed { flat_delta: 40 });
    add_condition_merge(&mut v, cond(3, ConditionType::Haste, ConditionData::Speed { flat_delta: -60 }, None));
    assert_eq!(v[0].data, ConditionData::Speed { flat_delta: -60 });
    assert_eq!(v[0].id, 3);
    add_condition_merge(&mut v, cond(4, ConditionType::Paralyze, ConditionData::Speed { flat_delta: -10 }, None));
    assert_eq!(v.len(), 2);
}

#[test]
fn dot_tick_uses_profile_and_skips_non_dot() {
    let p = MechanicsProfile::classic();
    assert_eq!(dot_tick_for_condition(&p, None, ConditionType::Fire, 0), Some((10, 8)));
    assert_eq!(dot_tick_for_condition(&p, None, ConditionType::Energy, 0), Some((25, 10)));
    assert_eq!(dot_tick_for_condition(&p, None, ConditionType::Haste, 0), None);
    assert_eq!(dot_tick_for_condition(&p, None, ConditionType::Pz, 0), None);
}

#[test]
fn merge_keeps_kind_and_sub_id_unique() {
    let mut v = vec![cond(1, ConditionType::Pz, ConditionData::Generic { ticks: 100 }, None)];
    add_condition_merge(&mut v, cond(2, ConditionType::Haste, ConditionData::Speed { flat_delta: 40 }, Some(5)));
    assert_eq!(v.len(), 2);
    add_condition_merge(&mut v, cond(3, ConditionType::Haste, ConditionData::Speed { flat_delta: 70 }, Some(9)));
    assert_eq!(v.len(), 2);
    assert_eq!(v[1].data, ConditionData::Speed { flat_delta: 70 });
    assert_eq!(v[1].id, 3);
    let once = v.clone();
    add_condition_merge(&mut v, cond(3, ConditionType::Haste, ConditionData::Speed { flat_delta: 70 }, Some(9)));
    assert_eq!(v, once);
}
