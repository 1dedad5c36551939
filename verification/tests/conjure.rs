use tfs_core::conjure::{conjure_from_hands_plan, resolve_conjure_count, HandsConjurePlan};

#[test]
fn conjure_count_resolution() {
    assert_eq!(resolve_conjure_count(2287, Some(5), Some(3)), Some(Some(5)));
    assert_eq!(resolve_conjure_count(2287, None, Some(3)), Some(Some(3)));
    assert_eq!(resolve_conjure_count(2287, Some(0), Some(3)), Some(Some(3)));
    assert_eq!(resolve_conjure_count(2287, None, Some(0)), Some(None));
    assert_eq!(resolve_conjure_count(2287, None, None), None);
    assert_eq!(resolve_conjure_count(0, None, None), Some(None));
}

#[test]
fn hands_plan() {
    let both = conjure_from_hands_plan(true, true, 100, 50, false);
    assert_eq!(both, HandsConjurePlan { convert_left: true, charge_extra_mana: true, convert_right: true, need_magic_item: false });
    let short = conjure_from_hands_plan(true, true, 99, 50, false);
    assert_eq!(short, HandsConjurePlan { convert_left: true, charge_extra_mana: false, convert_right: false, need_magic_item: false });
    let infinite = conjure_from_hands_plan(true, true, 0, 50, true);
    assert!(infinite.convert_right && infinite.charge_extra_mana);
    let right_only = conjure_from_hands_plan(false, true, 0, 50, false);
    assert_eq!(right_only, HandsConjurePlan { convert_left: false, charge_extra_mana: false, convert_right: true, need_magic_item: false });
    let none = conjure_from_hands_plan(false, false, 500, 50, false);
    assert!(none.need_magic_item && !none.convert_left && !none.convert_right);
    let huge = conjure_from_hands_plan(true, true, i32::MAX, i32::MAX, false);
    assert!(huge.convert_right);
}
