//! Conjuring: how many items a conjure spell makes, and which hands it converts.

use vstd::prelude::*;

verus! {

/// The count a conjure request makes: the requested count when one is given (not 0);
/// else the conjured type's charges when it has some, else the request as it is.
/// `type_charges` is the charges of the conjured item type (`None`: no such type);
/// the result is `None` for an unknown type asked without a count.
pub fn resolve_conjure_count(conjure_id: u16, conjure_count: Option<u32>, type_charges: Option<u32>) -> (r: Option<Option<u32>>)
    ensures
        r == (if conjure_count matches Some(c) && c != 0 {
            Some(conjure_count)
        } else if conjure_id == 0 {
            Some(conjure_count)
        } else {
            match type_charges {
                None => None,
                Some(ch) => if ch != 0 { Some(Some(ch)) } else { Some(conjure_count) },
            }
        }),
{
    let missing = match conjure_count {
        Some(c) => c == 0,
        None => true,
    };
    if !missing {
        return Some(conjure_count);
    }
    if conjure_id == 0 {
        return Some(conjure_count);
    }
    match type_charges {
        None => None,
        Some(ch) => if ch != 0 { Some(Some(ch)) } else { Some(conjure_count) },
    }
}

/// What a conjure from the hands does with a reagent: convert the reagent in the left
/// hand, then the one in the right hand, charging the spell's mana once more for the
/// second; the right hand is left alone when that second charge cannot be paid.
#[derive(Debug, Clone, Copy, PartialEq, Eq, Structural)]
pub struct HandsConjurePlan {
    pub convert_left: bool,
    pub charge_extra_mana: bool,
    pub convert_right: bool,
    /// Neither hand holds the reagent: the spell fails for want of a magic item.
    pub need_magic_item: bool,
}

/// Twice the mana cost, saturating.
pub open spec fn double_cost(mana_cost: i32) -> int {
    let d = 2 * mana_cost;
    if d > i32::MAX { i32::MAX as int } else if d < i32::MIN { i32::MIN as int } else { d }
}

pub fn conjure_from_hands_plan(left_is_reagent: bool, right_is_reagent: bool, mana: i32, mana_cost: i32, infinite_mana: bool) -> (r: HandsConjurePlan)
    ensures
        ({
            let short = left_is_reagent && mana < double_cost(mana_cost) && !infinite_mana;
            &&& r.convert_left == left_is_reagent
            &&& r.convert_right == (right_is_reagent && !short)
            &&& r.charge_extra_mana == (left_is_reagent && right_is_reagent && !short)
            &&& r.need_magic_item == (!left_is_reagent && !right_is_reagent)
        }),
{
    let wide = 2 * (mana_cost as i64);
    let need_two: i32 = if wide > i32::MAX as i64 { i32::MAX } else if wide < i32::MIN as i64 { i32::MIN } else { wide as i32 };
    let not_enough = mana < need_two && !infinite_mana;
    let short = left_is_reagent && not_enough;
    HandsConjurePlan {
        convert_left: left_is_reagent,
        charge_extra_mana: left_is_reagent && right_is_reagent && !short,
        convert_right: right_is_reagent && !short,
        need_magic_item: !left_is_reagent && !right_is_reagent,
    }
}

} // verus!
