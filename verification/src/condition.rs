//! Active conditions (poison, haste, light, ...) and the rule by which a condition
//! applied again merges with the one a creature already has.

use vstd::prelude::*;
use crate::combat::math::{condition_tick, DotElement, MechanicsProfile};

verus! {

/// Kinds of condition.
#[derive(Debug, Clone, Copy, PartialEq, Eq, Structural)]
pub enum ConditionType {
    /// No condition (the name `None` is taken by `Option`).
    NoCondition,
    Poison,
    Fire,
    Energy,
    Bleeding,
    Haste,
    Paralyze,
    Outfit,
    Invisible,
    Light,
    ManaShield,
    Infight,
    Drunk,
    ExhaustWeapon,
    Regeneration,
    Muted,
    ChannelMutedTicks,
    YellTicks,
    Attributes,
    Freezing,
    Dazzled,
    Cursed,
    ExhaustCombat,
    ExhaustHeal,
    ExhaustGroup,
    Pz,
}

/// Payload of an active condition.
#[derive(Debug, Clone, Copy, PartialEq, Eq, Structural)]
pub enum ConditionData {
    /// Damage over time: the strength compared on merge (for poison the pool that
    /// drains), and the per-mille drain rate (0 = default).
    Damage { total_rank: i32, factor_percent: i32 },
    /// Flat speed change: positive is haste, negative paralysis.
    Speed { flat_delta: i32 },
    /// Illusion: creature look type, or item look (`look_type` 0).
    Outfit { look_type: i32, look_type_ex: u16 },
    Light { level: u8, color: u8 },
    /// Regeneration: gains and their intervals in ms (0 = none), with elapsed time.
    Regeneration {
        health_gain: i32,
        health_ticks_ms: u32,
        mana_gain: i32,
        mana_ticks_ms: u32,
        health_elapsed_ms: u32,
        mana_elapsed_ms: u32,
    },
    Soul { per_tick: i32 },
    Attributes { melee: i16, shielding: i16, distance: i16, magic: i16 },
    SpellCooldown { spell_id: u16 },
    SpellGroupCooldown { group: u8 },
    /// Any other condition; the larger `ticks` wins on refresh.
    Generic { ticks: i32 },
}

/// A condition on a creature.
#[derive(Debug, Clone, Copy, PartialEq, Eq, Structural)]
pub struct ActiveCondition {
    pub id: u32,
    pub sub_id: u32,
    pub ctype: ConditionType,
    pub data: ConditionData,
    /// Events (cycles) left, when timed.
    pub timer_rounds_left: Option<i32>,
    /// Rounds to the next event; with `skill_max_count` 0, not started yet.
    pub skill_count: i32,
    /// Rounds between events.
    pub skill_max_count: i32,
}

impl ActiveCondition {
    /// A condition with no event countdown started.
    pub fn new(id: u32, sub_id: u32, ctype: ConditionType, data: ConditionData, timer_rounds_left: Option<i32>) -> (c: ActiveCondition)
        ensures
            c == (ActiveCondition { id, sub_id, ctype, data, timer_rounds_left, skill_count: 0, skill_max_count: 0 }),
    {
        ActiveCondition { id, sub_id, ctype, data, timer_rounds_left, skill_count: 0, skill_max_count: 0 }
    }

    /// The condition with its event countdown set (negative values as 0).
    pub fn with_skill_timer(self, count: i32, max_count: i32) -> (c: ActiveCondition)
        ensures
            c == (ActiveCondition {
                skill_count: if count < 0 { 0 } else { count },
                skill_max_count: if max_count < 0 { 0 } else { max_count },
                ..self
            }),
    {
        let mut c = self;
        c.skill_count = if count < 0 { 0 } else { count };
        c.skill_max_count = if max_count < 0 { 0 } else { max_count };
        c
    }
}

/// Whether an incoming speed change `b` replaces the current `a`: the stronger haste
/// among two hastes, the stronger slow among two slows, the larger magnitude across
/// kinds, or an equal value.
pub open spec fn speed_replaces(a: i32, b: i32) -> bool {
    (if a >= 0 && b >= 0 {
        b > a
    } else if a <= 0 && b <= 0 {
        b < a
    } else {
        abs(b as int) > abs(a as int)
    }) || a == b
}

pub open spec fn abs(x: int) -> int {
    if x < 0 { -x } else { x }
}

/// The timers of `e` refreshed from `inc`: the event count when `inc` has one, and
/// the countdown when `inc` has a started one.
pub open spec fn refreshed(e: ActiveCondition, inc: ActiveCondition) -> ActiveCondition {
    ActiveCondition {
        timer_rounds_left: if inc.timer_rounds_left is Some { inc.timer_rounds_left } else { e.timer_rounds_left },
        skill_count: if inc.skill_max_count > 0 { inc.skill_count } else { e.skill_count },
        skill_max_count: if inc.skill_max_count > 0 { inc.skill_max_count } else { e.skill_max_count },
        ..e
    }
}

/// `existing` after `incoming` of the same kind and sub id is applied again:
/// - damage: a stronger rank replaces rank, rate and id; poison then refreshes its
///   timers only when it was stronger, other damage always;
/// - speed: see `speed_replaces` (value and id), then timers refresh;
/// - generic: ticks and id when the new ticks are not smaller, then timers refresh;
/// - anything else: when the incoming id is not lower, its payload, id and event count
///   replace the old ones; then timers refresh.
pub open spec fn merged(existing: ActiveCondition, incoming: ActiveCondition) -> ActiveCondition {
    match (existing.data, incoming.data) {
        (ConditionData::Damage { total_rank: a, .. }, ConditionData::Damage { total_rank: b, factor_percent: fb }) => {
            let stronger = b > a;
            let e1 = if stronger {
                ActiveCondition { data: ConditionData::Damage { total_rank: b, factor_percent: fb }, id: incoming.id, ..existing }
            } else {
                existing
            };
            if existing.ctype == ConditionType::Poison && !stronger { e1 } else { refreshed(e1, incoming) }
        },
        (ConditionData::Speed { flat_delta: a }, ConditionData::Speed { flat_delta: b }) => {
            let e1 = if speed_replaces(a, b) {
                ActiveCondition { data: ConditionData::Speed { flat_delta: b }, id: incoming.id, ..existing }
            } else {
                existing
            };
            refreshed(e1, incoming)
        },
        (ConditionData::Generic { ticks: a }, ConditionData::Generic { ticks: b }) => {
            let e1 = if b >= a {
                ActiveCondition { data: ConditionData::Generic { ticks: b }, id: incoming.id, ..existing }
            } else {
                existing
            };
            refreshed(e1, incoming)
        },
        _ => {
            let e1 = if incoming.id >= existing.id {
                ActiveCondition {
                    data: incoming.data,
                    id: incoming.id,
                    timer_rounds_left: if incoming.timer_rounds_left is Some { incoming.timer_rounds_left } else { existing.timer_rounds_left },
                    ..existing
                }
            } else {
                existing
            };
            refreshed(e1, incoming)
        },
    }
}

/// The merge does not overflow: two speed changes of opposite kinds have magnitudes
/// that fit `i32`.
pub open spec fn merge_fits(existing: ActiveCondition, incoming: ActiveCondition) -> bool {
    match (existing.data, incoming.data) {
        (ConditionData::Speed { flat_delta: a }, ConditionData::Speed { flat_delta: b }) =>
            (a >= 0 && b >= 0) || (a <= 0 && b <= 0) || (a != i32::MIN && b != i32::MIN),
        _ => true,
    }
}

fn merge_into(existing: &mut ActiveCondition, incoming: &ActiveCondition)
    requires
        merge_fits(*old(existing), *incoming),
    ensures
        *final(existing) == merged(*old(existing), *incoming),
{
    let poison_strength_gated = existing.ctype == ConditionType::Poison
        && match (existing.data, incoming.data) {
            (ConditionData::Damage { .. }, ConditionData::Damage { .. }) => true,
            _ => false,
        };
    let mut accept_stronger_poison = false;
    match (existing.data, incoming.data) {
        (ConditionData::Damage { total_rank: a, .. }, ConditionData::Damage { total_rank: b, factor_percent: fb }) => {
            if b > a {
                existing.data = ConditionData::Damage { total_rank: b, factor_percent: fb };
                existing.id = incoming.id;
                accept_stronger_poison = true;
            }
        },
        (ConditionData::Speed { flat_delta: a }, ConditionData::Speed { flat_delta: b }) => {
            let incoming_stronger = if a >= 0 && b >= 0 {
                b > a
            } else if a <= 0 && b <= 0 {
                b < a
            } else {
                let bb = if b < 0 { -b } else { b };
                let aa = if a < 0 { -a } else { a };
                bb > aa
            };
            if incoming_stronger || a == b {
                existing.data = ConditionData::Speed { flat_delta: b };
                existing.id = incoming.id;
            }
        },
        (ConditionData::Generic { ticks: a }, ConditionData::Generic { ticks: b }) => {
            if b >= a {
                existing.data = ConditionData::Generic { ticks: b };
                existing.id = incoming.id;
            }
        },
        _ => {
            if incoming.id >= existing.id {
                existing.data = incoming.data;
                existing.id = incoming.id;
                if incoming.timer_rounds_left.is_some() {
                    existing.timer_rounds_left = incoming.timer_rounds_left;
                }
            }
        },
    }
    if poison_strength_gated {
        if accept_stronger_poison {
            if incoming.timer_rounds_left.is_some() {
                existing.timer_rounds_left = incoming.timer_rounds_left;
            }
            if incoming.skill_max_count > 0 {
                existing.skill_count = incoming.skill_count;
                existing.skill_max_count = incoming.skill_max_count;
            }
        }
        return;
    }
    if incoming.timer_rounds_left.is_some() {
        existing.timer_rounds_left = incoming.timer_rounds_left;
    }
    if incoming.skill_max_count > 0 {
        existing.skill_count = incoming.skill_count;
        existing.skill_max_count = incoming.skill_max_count;
    }
}

/// Whether `c` has kind `ctype` and sub id `sub_id`.
pub open spec fn same_key(c: ActiveCondition, ctype: ConditionType, sub_id: u32) -> bool {
    c.ctype == ctype && c.sub_id == sub_id
}

/// Index of the first condition of `s` with kind `ctype` and sub id `sub_id`, or the
/// length of `s` when there is none.
pub open spec fn first_with_key(s: Seq<ActiveCondition>, ctype: ConditionType, sub_id: u32) -> int
    decreases s.len(),
{
    if s.len() == 0 {
        0
    } else {
        let p = first_with_key(s.drop_last(), ctype, sub_id);
        if p < s.len() - 1 {
            p
        } else if same_key(s.last(), ctype, sub_id) {
            s.len() - 1
        } else {
            s.len() as int
        }
    }
}

proof fn lemma_first_with_key(s: Seq<ActiveCondition>, ctype: ConditionType, sub_id: u32)
    ensures
        0 <= first_with_key(s, ctype, sub_id) <= s.len(),
        first_with_key(s, ctype, sub_id) < s.len() ==> same_key(s[first_with_key(s, ctype, sub_id)], ctype, sub_id),
        forall|j: int| 0 <= j < first_with_key(s, ctype, sub_id) ==> !same_key(#[trigger] s[j], ctype, sub_id),
    decreases s.len(),
{
    if s.len() > 0 {
        let p = s.drop_last();
        lemma_first_with_key(p, ctype, sub_id);
        assert forall|j: int| 0 <= j < first_with_key(s, ctype, sub_id) implies !same_key(#[trigger] s[j], ctype, sub_id) by {
            if j < p.len() {
                assert(s[j] == p[j]);
            }
        }
    }
}

/// The list after `incoming` is applied: merged into the first condition of the same
/// kind and sub id, else appended.
pub open spec fn with_condition(s: Seq<ActiveCondition>, incoming: ActiveCondition) -> Seq<ActiveCondition> {
    let i = first_with_key(s, incoming.ctype, incoming.sub_id);
    if i < s.len() {
        s.update(i, merged(s[i], incoming))
    } else {
        s.push(incoming)
    }
}

/// The merge with the first condition of the same kind and sub id does not overflow.
pub open spec fn add_fits(s: Seq<ActiveCondition>, incoming: ActiveCondition) -> bool {
    let i = first_with_key(s, incoming.ctype, incoming.sub_id);
    i < s.len() ==> merge_fits(s[i], incoming)
}

/// Applies `incoming` to the condition list (see `with_condition`).
pub fn add_condition_merge(list: &mut Vec<ActiveCondition>, incoming: ActiveCondition)
    requires
        add_fits(old(list)@, incoming),
    ensures
        final(list)@ == with_condition(old(list)@, incoming),
{
    proof {
        lemma_first_with_key(list@, incoming.ctype, incoming.sub_id);
    }
    let mut i: usize = 0;
    while i < list.len()
        invariant
            list@ == old(list)@,
            add_fits(list@, incoming),
            i <= list@.len(),
            forall|j: int| 0 <= j < i ==> !same_key(#[trigger] list@[j], incoming.ctype, incoming.sub_id),
            0 <= first_with_key(list@, incoming.ctype, incoming.sub_id) <= list@.len(),
            first_with_key(list@, incoming.ctype, incoming.sub_id) < list@.len()
                ==> same_key(list@[first_with_key(list@, incoming.ctype, incoming.sub_id)], incoming.ctype, incoming.sub_id),
            forall|j: int| 0 <= j < first_with_key(list@, incoming.ctype, incoming.sub_id)
                ==> !same_key(#[trigger] list@[j], incoming.ctype, incoming.sub_id),
        decreases list@.len() - i,
    {
        if list[i].ctype == incoming.ctype && list[i].sub_id == incoming.sub_id {
            let ghost k = first_with_key(list@, incoming.ctype, incoming.sub_id);
            assert(k == i) by {
                if k < i {
                    assert(!same_key(list@[k], incoming.ctype, incoming.sub_id));
                }
                if k > i {
                    assert(!same_key(list@[i as int], incoming.ctype, incoming.sub_id));
                }
            }
            let mut c = list[i];
            merge_into(&mut c, &incoming);
            list.set(i, c);
            return;
        }
        i = i + 1;
    }
    proof {
        let k = first_with_key(list@, incoming.ctype, incoming.sub_id);
        if k < list@.len() {
            assert(!same_key(list@[k], incoming.ctype, incoming.sub_id));
        }
    }
    list.push(incoming);
}

/// The merge of a condition applied again, in plain terms:
/// - kind and sub id never change;
/// - a stronger damage rank takes over rank, rate and id; a rank not stronger keeps them;
/// - poison applied again without a stronger rank changes nothing at all;
/// - any other re-application (every kind but poison, and a stronger poison) re-arms: an
///   incoming event count replaces the old one, and a started incoming countdown replaces
///   the old countdown; without them the old ones stay (an absent event count never
///   clears one);
/// - speed: among two hastes the faster (or equal) one wins, among two slows the slower
///   (or equal) one, across kinds the larger magnitude;
/// - generic: ticks not smaller than the old ones take over;
/// - payloads of different shapes: an incoming id not lower takes over payload and id.
pub proof fn lemma_merge_rules(existing: ActiveCondition, incoming: ActiveCondition)
    ensures
        merged(existing, incoming).ctype == existing.ctype,
        merged(existing, incoming).sub_id == existing.sub_id,
        incoming.timer_rounds_left is None ==> merged(existing, incoming).timer_rounds_left == existing.timer_rounds_left,
        merged(existing, incoming).timer_rounds_left == existing.timer_rounds_left
            || merged(existing, incoming).timer_rounds_left == incoming.timer_rounds_left,
        existing.data is Damage && incoming.data is Damage ==> {
            &&& incoming.data->total_rank > existing.data->total_rank ==> merged(existing, incoming).data == incoming.data
                && merged(existing, incoming).id == incoming.id
            &&& incoming.data->total_rank <= existing.data->total_rank ==> merged(existing, incoming).data == existing.data
                && merged(existing, incoming).id == existing.id
            &&& existing.ctype == ConditionType::Poison && incoming.data->total_rank <= existing.data->total_rank
                ==> merged(existing, incoming) == existing
        },
        !(existing.ctype == ConditionType::Poison && existing.data is Damage && incoming.data is Damage
            && !(existing.data->total_rank < incoming.data->total_rank)) ==> {
            &&& incoming.timer_rounds_left is Some ==> merged(existing, incoming).timer_rounds_left == incoming.timer_rounds_left
            &&& incoming.skill_max_count > 0 ==> merged(existing, incoming).skill_count == incoming.skill_count
                && merged(existing, incoming).skill_max_count == incoming.skill_max_count
            &&& incoming.skill_max_count <= 0 ==> merged(existing, incoming).skill_count == existing.skill_count
                && merged(existing, incoming).skill_max_count == existing.skill_max_count
        },
        existing.data is Speed && incoming.data is Speed ==> {
            let a = existing.data->flat_delta;
            let b = incoming.data->flat_delta;
            let wins = if a >= 0 && b >= 0 { b >= a } else if a <= 0 && b <= 0 { b <= a }
                else { (if b < 0 { -b } else { b as int }) > (if a < 0 { -a } else { a as int }) };
            &&& wins ==> merged(existing, incoming).data == incoming.data && merged(existing, incoming).id == incoming.id
            &&& !wins ==> merged(existing, incoming).data == existing.data && merged(existing, incoming).id == existing.id
        },
        existing.data is Generic && incoming.data is Generic ==> {
            let a = existing.data->ticks;
            let b = incoming.data->ticks;
            &&& b >= a ==> merged(existing, incoming).data == incoming.data && merged(existing, incoming).id == incoming.id
            &&& b < a ==> merged(existing, incoming).data == existing.data && merged(existing, incoming).id == existing.id
        },
        !(existing.data is Damage && incoming.data is Damage) && !(existing.data is Speed && incoming.data is Speed)
            && !(existing.data is Generic && incoming.data is Generic) ==> {
            &&& incoming.id >= existing.id ==> merged(existing, incoming).data == incoming.data && merged(existing, incoming).id == incoming.id
            &&& incoming.id < existing.id ==> merged(existing, incoming).data == existing.data && merged(existing, incoming).id == existing.id
        },
{
}

/// `add_condition_merge` merges the incoming condition into the first condition with
/// its kind and sub id (see `lemma_merge_rules`) and leaves every other condition and the
/// length as they were; with no such condition it appends the incoming one.
pub proof fn lemma_add_condition_merges_first(s: Seq<ActiveCondition>, incoming: ActiveCondition, i: int)
    requires
        0 <= i < s.len(),
        same_key(s[i], incoming.ctype, incoming.sub_id),
        forall|j: int| 0 <= j < i ==> !same_key(#[trigger] s[j], incoming.ctype, incoming.sub_id),
    ensures
        with_condition(s, incoming).len() == s.len(),
        with_condition(s, incoming)[i] == merged(s[i], incoming),
        forall|j: int| 0 <= j < s.len() && j != i ==> #[trigger] with_condition(s, incoming)[j] == s[j],
{
    lemma_first_with_key(s, incoming.ctype, incoming.sub_id);
    let k = first_with_key(s, incoming.ctype, incoming.sub_id);
    assert(k == i) by {
        if k < i {
            assert(!same_key(s[k], incoming.ctype, incoming.sub_id));
        }
        if k > i {
            assert(!same_key(s[i], incoming.ctype, incoming.sub_id));
        }
    }
}

/// No two conditions of `s` share kind and sub id.
pub open spec fn keys_unique(s: Seq<ActiveCondition>) -> bool {
    forall|i: int, j: int| 0 <= i < j < s.len() ==> !same_key(#[trigger] s[i], s[j].ctype, #[trigger] s[j].sub_id)
}

/// `s` holds a condition with kind `ctype` and sub id `sub_id`.
pub open spec fn has_key(s: Seq<ActiveCondition>, ctype: ConditionType, sub_id: u32) -> bool {
    exists|j: int| 0 <= j < s.len() && same_key(#[trigger] s[j], ctype, sub_id)
}

/// What `add_condition_merge` does to the keys of the list: the list grows by one
/// exactly when no condition had the incoming kind and sub id (and keeps its length
/// otherwise), every condition already there keeps its kind and sub id, the incoming key
/// is present afterwards, and a list whose keys were unique keeps them unique.
pub proof fn lemma_add_condition_keys(s: Seq<ActiveCondition>, incoming: ActiveCondition)
    ensures
        has_key(s, incoming.ctype, incoming.sub_id) ==> with_condition(s, incoming).len() == s.len(),
        !has_key(s, incoming.ctype, incoming.sub_id) ==> with_condition(s, incoming).len() == s.len() + 1
            && with_condition(s, incoming) == s.push(incoming),
        forall|j: int| 0 <= j < s.len() ==> same_key(#[trigger] with_condition(s, incoming)[j], s[j].ctype, s[j].sub_id),
        has_key(with_condition(s, incoming), incoming.ctype, incoming.sub_id),
        keys_unique(s) ==> keys_unique(with_condition(s, incoming)),
{
    let t = with_condition(s, incoming);
    lemma_first_with_key(s, incoming.ctype, incoming.sub_id);
    let i = first_with_key(s, incoming.ctype, incoming.sub_id);
    if i < s.len() {
        assert(has_key(s, incoming.ctype, incoming.sub_id));
        assert(t[i] == merged(s[i], incoming));
        assert(same_key(t[i], incoming.ctype, incoming.sub_id));
        assert forall|j: int| 0 <= j < s.len() implies same_key(#[trigger] t[j], s[j].ctype, s[j].sub_id) by {
            if j == i {
                assert(t[j].ctype == s[j].ctype && t[j].sub_id == s[j].sub_id);
            }
        }
        if keys_unique(s) {
            assert forall|a: int, b: int| 0 <= a < b < t.len() implies !same_key(#[trigger] t[a], t[b].ctype, #[trigger] t[b].sub_id) by {
                assert(same_key(t[a], s[a].ctype, s[a].sub_id));
                assert(same_key(t[b], s[b].ctype, s[b].sub_id));
                assert(!same_key(s[a], s[b].ctype, s[b].sub_id));
            }
        }
    } else {
        assert(!has_key(s, incoming.ctype, incoming.sub_id)) by {
            if has_key(s, incoming.ctype, incoming.sub_id) {
                let j = choose|j: int| 0 <= j < s.len() && same_key(#[trigger] s[j], incoming.ctype, incoming.sub_id);
                assert(!same_key(s[j], incoming.ctype, incoming.sub_id));
            }
        }
        assert(t[s.len() as int] == incoming);
        assert(same_key(t[s.len() as int], incoming.ctype, incoming.sub_id));
        assert forall|j: int| 0 <= j < s.len() implies same_key(#[trigger] t[j], s[j].ctype, s[j].sub_id) by {
            assert(t[j] == s[j]);
        }
        if keys_unique(s) {
            assert forall|a: int, b: int| 0 <= a < b < t.len() implies !same_key(#[trigger] t[a], t[b].ctype, #[trigger] t[b].sub_id) by {
                assert(t[a] == s[a]);
                if b < s.len() {
                    assert(t[b] == s[b]);
                    assert(!same_key(s[a], s[b].ctype, s[b].sub_id));
                } else {
                    assert(!same_key(s[a], incoming.ctype, incoming.sub_id));
                }
            }
        }
    }
}

/// Applying the same condition twice (two calls of `add_condition_merge` with it)
/// leaves the list as applying it once.
pub proof fn lemma_add_condition_idempotent(s: Seq<ActiveCondition>, incoming: ActiveCondition)
    requires
        add_fits(s, incoming),
    ensures
        add_fits(with_condition(s, incoming), incoming),
        with_condition(with_condition(s, incoming), incoming) == with_condition(s, incoming),
{
    let t = with_condition(s, incoming);
    lemma_first_with_key(s, incoming.ctype, incoming.sub_id);
    lemma_first_with_key(t, incoming.ctype, incoming.sub_id);
    let i = first_with_key(s, incoming.ctype, incoming.sub_id);
    let k = first_with_key(t, incoming.ctype, incoming.sub_id);
    if i < s.len() {
        assert(t[i] == merged(s[i], incoming));
        assert(same_key(t[i], incoming.ctype, incoming.sub_id));
        assert(k == i) by {
            if k < i {
                assert(t[k] == s[k]);
            }
            if k > i {
                assert(!same_key(t[i], incoming.ctype, incoming.sub_id));
            }
        }
        assert(merged(merged(s[i], incoming), incoming) == merged(s[i], incoming));
        assert(t.update(i, merged(t[i], incoming)) =~= t);
    } else {
        assert(t[s.len() as int] == incoming);
        assert(k == s.len()) by {
            if k < s.len() {
                assert(t[k] == s[k]);
            }
            if k > s.len() {
                assert(!same_key(t[s.len() as int], incoming.ctype, incoming.sub_id));
            }
        }
        assert(merged(incoming, incoming) == incoming);
        assert(t.update(k, merged(t[k], incoming)) =~= t);
    }
}

/// Per-event damage and event interval of a fire or energy condition (the Tier-2
/// value when given, else the profile's); `None` for other kinds.
pub fn dot_tick_for_condition(profile: &MechanicsProfile, tier2: Option<(i32, i32)>, ctype: ConditionType, round: i32) -> (r: Option<(i32, i32)>)
    ensures
        r == match ctype {
            ConditionType::Fire => Some(match tier2 {
                Some(t) => t,
                None => (profile.conditions.fire.dmg, profile.conditions.fire.ticks),
            }),
            ConditionType::Energy => Some(match tier2 {
                Some(t) => t,
                None => (profile.conditions.energy.dmg, profile.conditions.energy.ticks),
            }),
            _ => None,
        },
{
    match ctype {
        ConditionType::Fire => Some(condition_tick(profile, tier2, DotElement::Fire, round)),
        ConditionType::Energy => Some(condition_tick(profile, tier2, DotElement::Energy, round)),
        _ => None,
    }
}

} // verus!
