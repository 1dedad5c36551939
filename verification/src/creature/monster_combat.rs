//! Monster combat data: spell shapes, field kinds, the melee defense of a target, and
//! the reach of a monster's attack.

use vstd::prelude::*;
use crate::combat::math::FightMode;
use crate::combat::CombatType;
use crate::condition::ConditionType;
use crate::text::{ascii_lower, chars_are, eq_ignore_ascii_case, lower_chars, parse_i32, parse_number};

verus! {

/// Where a monster spell takes effect.
#[derive(Debug, Clone, Copy, PartialEq, Eq, Structural)]
pub enum SpellShape {
    Actor,
    Victim,
    Origin,
    Destination,
    Angle,
}

/// Kind of magic field a monster spell leaves.
#[derive(Debug, Clone, Copy, PartialEq, Eq, Structural)]
pub enum MonsterFieldType {
    Fire,
    Poison,
    Energy,
}

impl MonsterFieldType {
    /// The field kind number: fire 1, poison 2, energy 3.
    pub fn code(self) -> (r: u8)
        ensures
            r == match self {
                MonsterFieldType::Fire => 1u8,
                MonsterFieldType::Poison => 2u8,
                MonsterFieldType::Energy => 3u8,
            },
    {
        match self {
            MonsterFieldType::Fire => 1,
            MonsterFieldType::Poison => 2,
            MonsterFieldType::Energy => 3,
        }
    }
}

/// What a melee hit reads of its target: defense skill and value, armor, the fight mode
/// it defends in, and whether it carries a shield.
#[derive(Debug, Clone, Copy, PartialEq, Eq, Structural)]
pub struct MeleeDefenseSnapshot {
    pub defense_skill: i32,
    pub defense_value: i32,
    pub armor: i32,
    pub defend_mode: FightMode,
    pub has_shield: bool,
}

/// A monster strikes in melee when it has melee skill and stands adjacent.
pub fn monster_has_melee_strike(melee_skill: i32, distance: u32) -> (r: bool)
    ensures
        r == (melee_skill > 0 && distance <= 1),
{
    melee_skill > 0 && distance <= 1
}

/// The distance a monster attacks from: 1 with melee skill, else 3 with a ranged
/// spell, else 1.
pub fn monster_weapon_attack_distance(melee_skill: i32, has_ranged_spell: bool) -> (r: i32)
    ensures
        r == (if melee_skill > 0 { 1i32 } else if has_ranged_spell { 3i32 } else { 1i32 }),
{
    if melee_skill > 0 {
        1
    } else if has_ranged_spell {
        3
    } else {
        1
    }
}

// ---------------------------------------------------------------------------
// Spells from monster definitions
// ---------------------------------------------------------------------------

/// What a monster spell does.
#[derive(Debug, Clone, PartialEq, Eq)]
pub enum SpellImpact {
    /// Damage of an element: a base and the variation around it.
    Damage { element: CombatType, base: i32, variation: i32 },
    /// A magic field on the tile.
    Field { field_type: MonsterFieldType },
    Healing { base: i32, variation: i32 },
    /// Speed change in percent, its variation and duration.
    Speed { percent: i32, variation: i32, duration: i32 },
    /// A damage-over-time condition with its cycles.
    Condition { condition: ConditionType, cycle: i32, min_cycle: i32 },
    /// Summons up to `max` creatures of `race`.
    Summon { race: String, max: i32, force: bool },
    Drunk { drunkness: i32 },
}

impl SpellImpact {
    /// Every impact but healing is aggressive.
    pub fn is_aggressive(&self) -> (r: bool)
        ensures
            r == !(self is Healing),
    {
        match self {
            SpellImpact::Healing { .. } => false,
            _ => true,
        }
    }
}

/// A spell as a monster definition states it: its element name, its attributes and the
/// attributes of its child elements, as texts.
pub struct MonsterSpellNode {
    pub element: String,
    pub attributes: Vec<(String, String)>,
    pub attribute_children: Vec<(String, String)>,
}

/// A monster's spell ready to cast.
#[derive(Debug, Clone, PartialEq, Eq)]
pub struct MonsterSpell {
    /// One in `delay` idle rounds casts it.
    pub delay: i32,
    pub range: i32,
    /// Disc radius (rings from 0) for origin and destination areas.
    pub radius: i32,
    /// Forward reach of a beam.
    pub length: i32,
    /// Spread of a beam.
    pub spread: i32,
    pub min_cycle: i32,
    pub shape: SpellShape,
    pub impact: SpellImpact,
    pub shoot_effect: Option<u8>,
    pub area_effect: Option<u8>,
}

/// The value of the first pair whose key is `key`.
pub open spec fn lookup(pairs: Seq<(String, String)>, key: Seq<char>) -> Option<Seq<char>>
    decreases pairs.len(),
{
    if pairs.len() == 0 {
        None
    } else if pairs[0].0@ == key {
        Some(pairs[0].1@)
    } else {
        lookup(pairs.drop_first(), key)
    }
}

/// The value of the first pair whose key is `key` up to ASCII letter case.
pub open spec fn lookup_ci(pairs: Seq<(String, String)>, key: Seq<char>) -> Option<Seq<char>>
    decreases pairs.len(),
{
    if pairs.len() == 0 {
        None
    } else if ascii_lower(pairs[0].0@) == ascii_lower(key) {
        Some(pairs[0].1@)
    } else {
        lookup_ci(pairs.drop_first(), key)
    }
}

/// Attribute `key` read as an `i32`, if present and a number.
pub open spec fn attr_value(pairs: Seq<(String, String)>, key: Seq<char>) -> Option<int> {
    match lookup(pairs, key) {
        Some(t) => parse_number(t, i32::MIN as int, i32::MAX as int),
        None => None,
    }
}

/// Attribute `key` read as an `i32`; `default` when missing or not a number.
pub open spec fn attr_or(pairs: Seq<(String, String)>, key: Seq<char>, default: i32) -> i32 {
    match attr_value(pairs, key) {
        Some(v) => v as i32,
        None => default,
    }
}

/// Index of the first pair with key `key` (up to ASCII case when `ci`).
fn find_key(pairs: &Vec<(String, String)>, key: &str, ci: bool) -> (r: Option<usize>)
    ensures
        match (if ci { lookup_ci(pairs@, key@) } else { lookup(pairs@, key@) }) {
            Some(v) => r matches Some(i) && i < pairs@.len() && pairs@[i as int].1@ == v,
            None => r is None,
        },
{
    let key_s = String::from_str(key);
    let mut i: usize = 0;
    assert(pairs@.subrange(0, pairs@.len() as int) =~= pairs@);
    while i < pairs.len()
        invariant
            i <= pairs@.len(),
            key_s@ == key@,
            (if ci { lookup_ci(pairs@, key@) } else { lookup(pairs@, key@) })
                == (if ci { lookup_ci(pairs@.subrange(i as int, pairs@.len() as int), key@) }
                    else { lookup(pairs@.subrange(i as int, pairs@.len() as int), key@) }),
        decreases pairs@.len() - i,
    {
        let ghost rest = pairs@.subrange(i as int, pairs@.len() as int);
        proof {
            assert(rest[0] == pairs@[i as int]);
            assert(rest.drop_first() =~= pairs@.subrange(i + 1, pairs@.len() as int));
        }
        let hit = if ci {
            eq_ignore_ascii_case(pairs[i].0.as_str(), key)
        } else {
            pairs[i].0 == key_s
        };
        if hit {
            return Some(i);
        }
        i = i + 1;
    }
    None
}

/// Attribute `key` of `node` as an `i32`, if present and a number.
fn attr_i32(node: &MonsterSpellNode, key: &str) -> (r: Option<i32>)
    ensures
        match attr_value(node.attributes@, key@) {
            Some(v) => r == Some(v as i32),
            None => r is None,
        },
{
    match find_key(&node.attributes, key, false) {
        Some(i) => parse_i32(node.attributes[i].1.as_str()),
        None => None,
    }
}

/// Attribute `key` of `node` as an `i32` (see `attr_or`).
pub fn parse_attr_i32(node: &MonsterSpellNode, key: &str, default: i32) -> (r: i32)
    ensures
        r == attr_or(node.attributes@, key@, default),
{
    match attr_i32(node, key) {
        Some(v) => v,
        None => default,
    }
}

/// The child attribute `key` (any letter case) of `node`.
pub fn spell_child_attr(node: &MonsterSpellNode, key: &str) -> (r: Option<String>)
    ensures
        match lookup_ci(node.attribute_children@, key@) {
            Some(v) => r matches Some(t) && t@ == v,
            None => r is None,
        },
{
    match find_key(&node.attribute_children, key, true) {
        Some(i) => Some(node.attribute_children[i].1.clone()),
        None => None,
    }
}

/// The missile of a shoot-effect name (any letter case).
pub open spec fn shoot_effect_code(name: Seq<char>) -> Option<u8> {
    let l = ascii_lower(name);
    if l == "poison"@ || l == "earth"@ { Some(15u8) }
    else if l == "poisonarrow"@ { Some(6u8) }
    else if l == "fire"@ { Some(4u8) }
    else if l == "energy"@ { Some(5u8) }
    else if l == "death"@ { Some(11u8) }
    else if l == "spear"@ { Some(1u8) }
    else if l == "bolt"@ { Some(2u8) }
    else if l == "arrow"@ { Some(3u8) }
    else if l == "burstarrow"@ { Some(7u8) }
    else if l == "throwingstar"@ { Some(8u8) }
    else if l == "snowball"@ { Some(13u8) }
    else if l == "powerbolt"@ { Some(14u8) }
    else { None }
}

pub fn parse_shoot_effect_name(name: &str) -> (r: Option<u8>)
    ensures
        r == shoot_effect_code(name@),
{
    let l = lower_chars(name);
    if chars_are(&l, "poison") || chars_are(&l, "earth") { Some(15) }
    else if chars_are(&l, "poisonarrow") { Some(6) }
    else if chars_are(&l, "fire") { Some(4) }
    else if chars_are(&l, "energy") { Some(5) }
    else if chars_are(&l, "death") { Some(11) }
    else if chars_are(&l, "spear") { Some(1) }
    else if chars_are(&l, "bolt") { Some(2) }
    else if chars_are(&l, "arrow") { Some(3) }
    else if chars_are(&l, "burstarrow") { Some(7) }
    else if chars_are(&l, "throwingstar") { Some(8) }
    else if chars_are(&l, "snowball") { Some(13) }
    else if chars_are(&l, "powerbolt") { Some(14) }
    else { None }
}

/// The effect of an area-effect name (any letter case), within the effects the client
/// draws.
pub open spec fn area_effect_code(name: Seq<char>) -> Option<u8> {
    let l = ascii_lower(name);
    if l == "redspark"@ { Some(1u8) }
    else if l == "bluebubble"@ { Some(2u8) }
    else if l == "poff"@ { Some(3u8) }
    else if l == "yellowspark"@ { Some(4u8) }
    else if l == "explosionarea"@ { Some(5u8) }
    else if l == "explosion"@ { Some(6u8) }
    else if l == "firearea"@ { Some(7u8) }
    else if l == "yellowbubble"@ { Some(8u8) }
    else if l == "greenbubble"@ { Some(9u8) }
    else if l == "blackspark"@ { Some(10u8) }
    else if l == "teleport"@ { Some(11u8) }
    else if l == "energy"@ { Some(12u8) }
    else if l == "blueshimmer"@ { Some(13u8) }
    else if l == "redshimmer"@ { Some(14u8) }
    else if l == "greenshimmer"@ { Some(15u8) }
    else if l == "fire"@ { Some(16u8) }
    else if l == "greenspark"@ { Some(17u8) }
    else if l == "mortarea"@ { Some(18u8) }
    else if l == "greennote"@ { Some(19u8) }
    else if l == "rednote"@ { Some(20u8) }
    else if l == "poison"@ { Some(21u8) }
    else if l == "yellownote"@ { Some(22u8) }
    else if l == "purplenote"@ { Some(23u8) }
    else if l == "bluenote"@ { Some(24u8) }
    else if l == "whitenote"@ { Some(25u8) }
    else { None }
}

pub fn parse_area_effect_name(name: &str) -> (r: Option<u8>)
    ensures
        r == area_effect_code(name@),
{
    let l = lower_chars(name);
    if chars_are(&l, "redspark") { Some(1) }
    else if chars_are(&l, "bluebubble") { Some(2) }
    else if chars_are(&l, "poff") { Some(3) }
    else if chars_are(&l, "yellowspark") { Some(4) }
    else if chars_are(&l, "explosionarea") { Some(5) }
    else if chars_are(&l, "explosion") { Some(6) }
    else if chars_are(&l, "firearea") { Some(7) }
    else if chars_are(&l, "yellowbubble") { Some(8) }
    else if chars_are(&l, "greenbubble") { Some(9) }
    else if chars_are(&l, "blackspark") { Some(10) }
    else if chars_are(&l, "teleport") { Some(11) }
    else if chars_are(&l, "energy") { Some(12) }
    else if chars_are(&l, "blueshimmer") { Some(13) }
    else if chars_are(&l, "redshimmer") { Some(14) }
    else if chars_are(&l, "greenshimmer") { Some(15) }
    else if chars_are(&l, "fire") { Some(16) }
    else if chars_are(&l, "greenspark") { Some(17) }
    else if chars_are(&l, "mortarea") { Some(18) }
    else if chars_are(&l, "greennote") { Some(19) }
    else if chars_are(&l, "rednote") { Some(20) }
    else if chars_are(&l, "poison") { Some(21) }
    else if chars_are(&l, "yellownote") { Some(22) }
    else if chars_are(&l, "purplenote") { Some(23) }
    else if chars_are(&l, "bluenote") { Some(24) }
    else if chars_are(&l, "whitenote") { Some(25) }
    else { None }
}

// ---------------------------------------------------------------------------
// Reading a spell node
// ---------------------------------------------------------------------------

/// The spell's name: its `name` attribute, else the element's name.
pub open spec fn spell_name(node: MonsterSpellNode) -> Seq<char> {
    match lookup(node.attributes@, "name"@) {
        Some(n) => n,
        None => node.element@,
    }
}

fn spell_name_of(node: &MonsterSpellNode) -> (r: &str)
    ensures
        r@ == spell_name(*node),
{
    match find_key(&node.attributes, "name", false) {
        Some(i) => node.attributes[i].1.as_str(),
        None => node.element.as_str(),
    }
}

pub open spec fn abs_int(x: int) -> int {
    if x < 0 { -x } else { x }
}

pub open spec fn min_int(a: int, b: int) -> int {
    if a <= b { a } else { b }
}

pub open spec fn max_int(a: int, b: int) -> int {
    if a <= b { b } else { a }
}

/// Damage `min`/`max` taken by magnitude: the midpoint and half the span.
pub open spec fn damage_base(attrs: Seq<(String, String)>) -> i32 {
    let a = abs_int(attr_or(attrs, "min"@, 0) as int);
    let b = abs_int(attr_or(attrs, "max"@, 0) as int);
    ((min_int(a, b) + max_int(a, b)) / 2) as i32
}

pub open spec fn damage_variation(attrs: Seq<(String, String)>) -> i32 {
    let a = abs_int(attr_or(attrs, "min"@, 0) as int);
    let b = abs_int(attr_or(attrs, "max"@, 0) as int);
    ((max_int(a, b) - min_int(a, b)) / 2) as i32
}

/// Healing `min`/`max` as signed values: the midpoint (at least 0) and half the span.
pub open spec fn healing_base(attrs: Seq<(String, String)>) -> i32 {
    let sum = attr_or(attrs, "min"@, 0) + attr_or(attrs, "max"@, 0);
    if sum < 0 { 0i32 } else { (sum / 2) as i32 }
}

pub open spec fn healing_variation(attrs: Seq<(String, String)>) -> i32 {
    let a = attr_or(attrs, "min"@, 0) as int;
    let b = attr_or(attrs, "max"@, 0) as int;
    ((max_int(a, b) - min_int(a, b)) / 2) as i32
}

pub open spec fn is_damage_name(l: Seq<char>) -> bool {
    l == "fire"@ || l == "energy"@ || l == "lifedrain"@ || l == "physical"@
}

/// The `min`/`max` arithmetic of a spell stays within `i32` (no magnitude of
/// `i32::MIN`, no sum past the range).
pub open spec fn impact_fits(name: Seq<char>, attrs: Seq<(String, String)>) -> bool {
    let l = ascii_lower(name);
    let mn = attr_or(attrs, "min"@, 0) as int;
    let mx = attr_or(attrs, "max"@, 0) as int;
    if is_damage_name(l) {
        mn != i32::MIN && mx != i32::MIN && abs_int(mn) + abs_int(mx) <= i32::MAX
    } else if l == "healing"@ {
        i32::MIN <= mn + mx <= i32::MAX && max_int(mn, mx) - min_int(mn, mx) <= i32::MAX
    } else {
        true
    }
}

/// The impact a spell name (any letter case) stands for, read from the attributes.
pub open spec fn impact_of(name: Seq<char>, attrs: Seq<(String, String)>) -> Option<SpellImpact> {
    let l = ascii_lower(name);
    let cycle = attr_or(attrs, "cycle"@, 0);
    let min_cycle = attr_or(attrs, "mincycle"@, 0);
    if l == "poisoncondition"@ {
        Some(SpellImpact::Condition { condition: ConditionType::Poison, cycle, min_cycle })
    } else if l == "firecondition"@ {
        Some(SpellImpact::Condition { condition: ConditionType::Fire, cycle, min_cycle })
    } else if l == "energycondition"@ {
        Some(SpellImpact::Condition { condition: ConditionType::Energy, cycle, min_cycle })
    } else if is_damage_name(l) {
        let element = if l == "fire"@ {
            CombatType::Fire
        } else if l == "energy"@ {
            CombatType::Energy
        } else if l == "lifedrain"@ {
            CombatType::LifeDrain
        } else {
            CombatType::Physical
        };
        Some(SpellImpact::Damage { element, base: damage_base(attrs), variation: damage_variation(attrs) })
    } else if l == "healing"@ {
        Some(SpellImpact::Healing { base: healing_base(attrs), variation: healing_variation(attrs) })
    } else if l == "speed"@ {
        Some(SpellImpact::Speed {
            percent: attr_or(attrs, "speed"@, 0),
            variation: attr_or(attrs, "speedvariation"@, 0),
            duration: attr_or(attrs, "duration"@, 0),
        })
    } else if l == "drunk"@ {
        Some(SpellImpact::Drunk { drunkness: attr_or(attrs, "drunkness"@, 0) })
    } else if l == "poisonfield"@ {
        Some(SpellImpact::Field { field_type: MonsterFieldType::Poison })
    } else if l == "firefield"@ {
        Some(SpellImpact::Field { field_type: MonsterFieldType::Fire })
    } else if l == "energyfield"@ {
        Some(SpellImpact::Field { field_type: MonsterFieldType::Energy })
    } else {
        None
    }
}

fn parse_min_max_damage(node: &MonsterSpellNode) -> (r: (i32, i32))
    requires
        attr_or(node.attributes@, "min"@, 0) != i32::MIN,
        attr_or(node.attributes@, "max"@, 0) != i32::MIN,
        abs_int(attr_or(node.attributes@, "min"@, 0) as int)
            + abs_int(attr_or(node.attributes@, "max"@, 0) as int) <= i32::MAX,
    ensures
        r.0 == damage_base(node.attributes@),
        r.1 == damage_variation(node.attributes@),
{
    let min = parse_attr_i32(node, "min", 0);
    let max = parse_attr_i32(node, "max", 0);
    let a = if min < 0 { -min } else { min };
    let b = if max < 0 { -max } else { max };
    let lo = if a <= b { a } else { b };
    let hi = if a <= b { b } else { a };
    ((lo + hi) / 2, (hi - lo) / 2)
}

fn parse_min_max_healing(node: &MonsterSpellNode) -> (r: (i32, i32))
    requires
        i32::MIN <= attr_or(node.attributes@, "min"@, 0) + attr_or(node.attributes@, "max"@, 0)
            <= i32::MAX,
        max_int(attr_or(node.attributes@, "min"@, 0) as int, attr_or(node.attributes@, "max"@, 0) as int)
            - min_int(attr_or(node.attributes@, "min"@, 0) as int, attr_or(node.attributes@, "max"@, 0) as int)
            <= i32::MAX,
    ensures
        r.0 == healing_base(node.attributes@),
        r.1 == healing_variation(node.attributes@),
{
    let min = parse_attr_i32(node, "min", 0);
    let max = parse_attr_i32(node, "max", 0);
    let lo = if min <= max { min } else { max };
    let hi = if min <= max { max } else { min };
    let sum = lo + hi;
    let base = if sum < 0 { 0 } else { sum / 2 };
    (base, (hi - lo) / 2)
}

/// The impact of a spell named `name` (any letter case); `None` for names that are no
/// known spell.
fn parse_spell_impact(name: &str, node: &MonsterSpellNode) -> (r: Option<SpellImpact>)
    requires
        impact_fits(name@, node.attributes@),
    ensures
        r == impact_of(name@, node.attributes@),
{
    let l = lower_chars(name);
    if chars_are(&l, "poisoncondition") || chars_are(&l, "firecondition")
        || chars_are(&l, "energycondition") {
        let condition = if chars_are(&l, "poisoncondition") {
            ConditionType::Poison
        } else if chars_are(&l, "firecondition") {
            ConditionType::Fire
        } else {
            ConditionType::Energy
        };
        return Some(SpellImpact::Condition {
            condition,
            cycle: parse_attr_i32(node, "cycle", 0),
            min_cycle: parse_attr_i32(node, "mincycle", 0),
        });
    }
    if chars_are(&l, "fire") || chars_are(&l, "energy") || chars_are(&l, "lifedrain")
        || chars_are(&l, "physical") {
        let element = if chars_are(&l, "fire") {
            CombatType::Fire
        } else if chars_are(&l, "energy") {
            CombatType::Energy
        } else if chars_are(&l, "lifedrain") {
            CombatType::LifeDrain
        } else {
            CombatType::Physical
        };
        let (base, variation) = parse_min_max_damage(node);
        return Some(SpellImpact::Damage { element, base, variation });
    }
    if chars_are(&l, "healing") {
        let (base, variation) = parse_min_max_healing(node);
        return Some(SpellImpact::Healing { base, variation });
    }
    if chars_are(&l, "speed") {
        return Some(SpellImpact::Speed {
            percent: parse_attr_i32(node, "speed", 0),
            variation: parse_attr_i32(node, "speedvariation", 0),
            duration: parse_attr_i32(node, "duration", 0),
        });
    }
    if chars_are(&l, "drunk") {
        return Some(SpellImpact::Drunk { drunkness: parse_attr_i32(node, "drunkness", 0) });
    }
    if chars_are(&l, "poisonfield") {
        return Some(SpellImpact::Field { field_type: MonsterFieldType::Poison });
    }
    if chars_are(&l, "firefield") {
        return Some(SpellImpact::Field { field_type: MonsterFieldType::Fire });
    }
    if chars_are(&l, "energyfield") {
        return Some(SpellImpact::Field { field_type: MonsterFieldType::Energy });
    }
    None
}

/// The shape a spell node asks for: a beam when it has a length; an area around the
/// caster for a radius with `target="0"`; an area around the victim for a radius with
/// `target="1"`; the victim alone for `target="1"` or a positive range; else the caster.
pub open spec fn shape_of(attrs: Seq<(String, String)>) -> SpellShape {
    let radius = attr_or(attrs, "radius"@, 0);
    let range = attr_or(attrs, "range"@, 0);
    let length = attr_or(attrs, "length"@, 0);
    let target = attr_value(attrs, "target"@);
    if length > 0 {
        SpellShape::Angle
    } else if radius > 0 && target == Some(0int) {
        SpellShape::Origin
    } else if target == Some(1int) && radius > 0 {
        SpellShape::Destination
    } else if target == Some(1int) || range > 0 {
        SpellShape::Victim
    } else {
        SpellShape::Actor
    }
}

fn default_shape_for_node(node: &MonsterSpellNode) -> (r: SpellShape)
    ensures
        r == shape_of(node.attributes@),
{
    let radius = parse_attr_i32(node, "radius", 0);
    let range = parse_attr_i32(node, "range", 0);
    let length = parse_attr_i32(node, "length", 0);
    let target = attr_i32(node, "target");
    if length > 0 {
        return SpellShape::Angle;
    }
    if radius > 0 && target == Some(0i32) {
        return SpellShape::Origin;
    }
    if target == Some(1i32) && radius > 0 {
        return SpellShape::Destination;
    }
    if target == Some(1i32) || range > 0 {
        return SpellShape::Victim;
    }
    SpellShape::Actor
}

/// The missile or area effect named by child attribute `key`.
pub open spec fn child_effect(children: Seq<(String, String)>, key: Seq<char>, shoot: bool) -> Option<u8> {
    match lookup_ci(children, key) {
        Some(t) => if shoot { shoot_effect_code(t) } else { area_effect_code(t) },
        None => None,
    }
}

/// The spell a node describes; `None` for melee and for unknown spell names. An
/// origin or destination area keeps one ring less than the node's radius.
pub open spec fn spell_of(node: MonsterSpellNode) -> Option<MonsterSpell> {
    let name = spell_name(node);
    let attrs = node.attributes@;
    if ascii_lower(name) == "melee"@ {
        None
    } else {
        match impact_of(name, attrs) {
            None => None,
            Some(impact) => {
                let shape = shape_of(attrs);
                let xml_radius = attr_or(attrs, "radius"@, 0);
                Some(MonsterSpell {
                    delay: attr_or(attrs, "delay"@, 0),
                    range: attr_or(attrs, "range"@, 0),
                    radius: if (shape is Origin || shape is Destination) && xml_radius > 0 {
                        (xml_radius - 1) as i32
                    } else {
                        xml_radius
                    },
                    length: attr_or(attrs, "length"@, 0),
                    spread: attr_or(attrs, "spread"@, 0),
                    min_cycle: attr_or(attrs, "mincycle"@, 0),
                    shape,
                    impact,
                    shoot_effect: child_effect(node.attribute_children@, "shooteffect"@, true),
                    area_effect: child_effect(node.attribute_children@, "areaeffect"@, false),
                })
            },
        }
    }
}

impl MonsterSpell {
    /// Reads a non-melee spell from its node; `None` for melee and unknown names.
    pub fn try_from_node(node: &MonsterSpellNode) -> (r: Option<MonsterSpell>)
        requires
            impact_fits(spell_name(*node), node.attributes@),
        ensures
            r == spell_of(*node),
    {
        let name = spell_name_of(node);
        let lname = lower_chars(name);
        if chars_are(&lname, "melee") {
            return None;
        }
        let delay = parse_attr_i32(node, "delay", 0);
        let range = parse_attr_i32(node, "range", 0);
        let xml_radius = parse_attr_i32(node, "radius", 0);
        let length = parse_attr_i32(node, "length", 0);
        let spread = parse_attr_i32(node, "spread", 0);
        let min_cycle = parse_attr_i32(node, "mincycle", 0);
        let shape = default_shape_for_node(node);
        let area = match shape {
            SpellShape::Origin | SpellShape::Destination => true,
            _ => false,
        };
        let radius = if area && xml_radius > 0 { xml_radius - 1 } else { xml_radius };
        let impact = match parse_spell_impact(name, node) {
            Some(i) => i,
            None => return None,
        };
        let shoot_effect = match spell_child_attr(node, "shooteffect") {
            Some(t) => parse_shoot_effect_name(t.as_str()),
            None => None,
        };
        let area_effect = match spell_child_attr(node, "areaeffect") {
            Some(t) => parse_area_effect_name(t.as_str()),
            None => None,
        };
        Some(MonsterSpell {
            delay,
            range,
            radius,
            length,
            spread,
            min_cycle,
            shape,
            impact,
            shoot_effect,
            area_effect,
        })
    }
}

/// A spell reaches `distance` when it has a positive range of at least that.
pub fn runtime_spell_in_attack_range(spell: &MonsterSpell, distance: u32) -> (r: bool)
    ensures
        r == (spell.range > 0 && distance <= spell.range),
{
    if spell.range <= 0 {
        false
    } else {
        distance <= spell.range as u32
    }
}

// ---------------------------------------------------------------------------
// Combat data of a monster type
// ---------------------------------------------------------------------------

/// A summon entry of a monster definition: the race, one-in-`delay` casting, the most
/// summons at once (0: the type's own limit) and whether placement is forced.
pub struct SummonBlock {
    pub name: String,
    pub delay: i32,
    pub max: u32,
    pub force: bool,
}

/// The defenses of a monster definition.
pub struct MonsterDefenses {
    pub armor: Option<i32>,
    pub defense: Option<i32>,
    pub immunity_poison: bool,
    pub immunity_fire: bool,
    pub immunity_energy: bool,
    pub immunity_life_drain: bool,
    pub see_invisible: bool,
    pub immunity_physical: bool,
    pub spells: Vec<MonsterSpellNode>,
}

/// What a spawn reads of a monster definition for combat.
pub struct MonsterType {
    pub attack_spells: Vec<MonsterSpellNode>,
    pub summons: Vec<SummonBlock>,
    pub max_summons: u32,
    pub defenses: MonsterDefenses,
}

/// Combat stats of a monster at spawn: melee, defenses and its spells (attacks, then
/// summons, then defense spells).
#[derive(Debug, Clone, PartialEq, Eq)]
pub struct MonsterCombatSnapshot {
    pub melee_skill: i32,
    pub melee_attack: i32,
    pub poison_cycles: i32,
    pub armor: i32,
    pub defense: i32,
    pub immunity_poison: bool,
    pub immunity_fire: bool,
    pub immunity_energy: bool,
    pub immunity_life_drain: bool,
    pub see_invisible: bool,
    pub immunity_physical: bool,
    pub spells: Vec<MonsterSpell>,
}

impl Default for MonsterCombatSnapshot {
    fn default() -> (r: MonsterCombatSnapshot)
        ensures
            r.melee_skill == 0 && r.melee_attack == 0 && r.poison_cycles == 0,
            r.armor == 0 && r.defense == 0,
            !r.immunity_poison && !r.immunity_fire && !r.immunity_energy,
            !r.immunity_life_drain && !r.see_invisible && !r.immunity_physical,
            r.spells@.len() == 0,
    {
        MonsterCombatSnapshot {
            melee_skill: 0,
            melee_attack: 0,
            poison_cycles: 0,
            armor: 0,
            defense: 0,
            immunity_poison: false,
            immunity_fire: false,
            immunity_energy: false,
            immunity_life_drain: false,
            see_invisible: false,
            immunity_physical: false,
            spells: Vec::new(),
        }
    }
}

pub open spec fn is_melee(node: MonsterSpellNode) -> bool {
    ascii_lower(spell_name(node)) == "melee"@
}

/// A node whose spell arithmetic stays within `i32` (see `impact_fits`).
pub open spec fn node_fits(node: MonsterSpellNode) -> bool {
    impact_fits(spell_name(node), node.attributes@)
}

/// The spells of the nodes that are no melee and have a known name, in order.
pub open spec fn spells_of(nodes: Seq<MonsterSpellNode>) -> Seq<MonsterSpell>
    decreases nodes.len(),
{
    if nodes.len() == 0 {
        Seq::empty()
    } else {
        let rest = spells_of(nodes.drop_last());
        match spell_of(nodes.last()) {
            Some(sp) => rest.push(sp),
            None => rest,
        }
    }
}

/// Attribute `key` of the last melee node (0 without one, or when missing).
pub open spec fn melee_attr(nodes: Seq<MonsterSpellNode>, key: Seq<char>) -> i32
    decreases nodes.len(),
{
    if nodes.len() == 0 {
        0
    } else if is_melee(nodes.last()) {
        attr_or(nodes.last().attributes@, key, 0)
    } else {
        melee_attr(nodes.drop_last(), key)
    }
}

/// The summon spell of a block: cast at the caster with no reach, one in `delay` (at
/// least 1) rounds, up to the block's `max` or else the type's limit (at least 1).
pub open spec fn summon_spell(block: SummonBlock, max_summons: u32) -> MonsterSpell {
    MonsterSpell {
        delay: if block.delay < 1 { 1i32 } else { block.delay },
        range: 0,
        radius: 0,
        length: 0,
        spread: 0,
        min_cycle: 0,
        shape: SpellShape::Origin,
        impact: SpellImpact::Summon {
            race: block.name,
            max: if block.max > 0 {
                block.max as i32
            } else if max_summons < 1 {
                1i32
            } else {
                max_summons as i32
            },
            force: block.force,
        },
        shoot_effect: None,
        area_effect: None,
    }
}

pub open spec fn summon_spells(blocks: Seq<SummonBlock>, max_summons: u32) -> Seq<MonsterSpell> {
    blocks.map_values(|b: SummonBlock| summon_spell(b, max_summons))
}

fn make_summon_spell(block: &SummonBlock, max_summons: u32) -> (r: MonsterSpell)
    ensures
        r == summon_spell(*block, max_summons),
{
    let max = if block.max > 0 {
        block.max as i32
    } else if max_summons < 1 {
        1
    } else {
        max_summons as i32
    };
    MonsterSpell {
        delay: if block.delay < 1 { 1 } else { block.delay },
        range: 0,
        radius: 0,
        length: 0,
        spread: 0,
        min_cycle: 0,
        shape: SpellShape::Origin,
        impact: SpellImpact::Summon { race: block.name.clone(), max, force: block.force },
        shoot_effect: None,
        area_effect: None,
    }
}

/// Pushes the spells of `nodes` onto `spells`.
fn push_node_spells(spells: &mut Vec<MonsterSpell>, nodes: &Vec<MonsterSpellNode>)
    requires
        forall|i: int| 0 <= i < nodes@.len() ==> node_fits(#[trigger] nodes@[i]),
    ensures
        final(spells)@ == old(spells)@ + spells_of(nodes@),
{
    let ghost start = spells@;
    let mut k: usize = 0;
    assert(nodes@.subrange(0, 0) =~= Seq::<MonsterSpellNode>::empty());
    assert(start + Seq::<MonsterSpell>::empty() =~= start);
    while k < nodes.len()
        invariant
            k <= nodes@.len(),
            forall|i: int| 0 <= i < nodes@.len() ==> node_fits(#[trigger] nodes@[i]),
            spells@ == start + spells_of(nodes@.subrange(0, k as int)),
        decreases nodes@.len() - k,
    {
        let ghost pre = nodes@.subrange(0, k as int);
        let ghost next = nodes@.subrange(0, k + 1);
        assert(next.drop_last() =~= pre);
        assert(next.last() == nodes@[k as int]);
        assert(node_fits(nodes@[k as int]));
        match MonsterSpell::try_from_node(&nodes[k]) {
            Some(sp) => {
                spells.push(sp);
                assert(spells@ =~= start + spells_of(next));
            },
            None => {},
        }
        k = k + 1;
    }
    assert(nodes@.subrange(0, nodes@.len() as int) =~= nodes@);
}

/// The combat snapshot of a monster type: melee stats from its last melee attack,
/// armor and defense (0 when missing), its immunities, and its spells: the attacks, a
/// summon spell per summon block, then the defense spells.
pub fn combat_from_monster_type(mtype: &MonsterType) -> (snap: MonsterCombatSnapshot)
    requires
        forall|i: int| 0 <= i < mtype.attack_spells@.len() ==> node_fits(#[trigger] mtype.attack_spells@[i]),
        forall|i: int| 0 <= i < mtype.defenses.spells@.len() ==> node_fits(#[trigger] mtype.defenses.spells@[i]),
    ensures
        snap.melee_skill == melee_attr(mtype.attack_spells@, "skill"@),
        snap.melee_attack == melee_attr(mtype.attack_spells@, "attack"@),
        snap.poison_cycles == melee_attr(mtype.attack_spells@, "poisoncycles"@),
        snap.armor == (match mtype.defenses.armor { Some(a) => a, None => 0i32 }),
        snap.defense == (match mtype.defenses.defense { Some(d) => d, None => 0i32 }),
        snap.immunity_poison == mtype.defenses.immunity_poison,
        snap.immunity_fire == mtype.defenses.immunity_fire,
        snap.immunity_energy == mtype.defenses.immunity_energy,
        snap.immunity_life_drain == mtype.defenses.immunity_life_drain,
        snap.see_invisible == mtype.defenses.see_invisible,
        snap.immunity_physical == mtype.defenses.immunity_physical,
        snap.spells@ == spells_of(mtype.attack_spells@)
            + summon_spells(mtype.summons@, mtype.max_summons)
            + spells_of(mtype.defenses.spells@),
{
    let mut snap = MonsterCombatSnapshot {
        melee_skill: 0,
        melee_attack: 0,
        poison_cycles: 0,
        armor: match mtype.defenses.armor { Some(a) => a, None => 0 },
        defense: match mtype.defenses.defense { Some(d) => d, None => 0 },
        immunity_poison: mtype.defenses.immunity_poison,
        immunity_fire: mtype.defenses.immunity_fire,
        immunity_energy: mtype.defenses.immunity_energy,
        immunity_life_drain: mtype.defenses.immunity_life_drain,
        see_invisible: mtype.defenses.see_invisible,
        immunity_physical: mtype.defenses.immunity_physical,
        spells: Vec::new(),
    };
    let nodes = &mtype.attack_spells;
    let mut k: usize = 0;
    while k < nodes.len()
        invariant
            k <= nodes@.len(),
            *nodes == mtype.attack_spells,
            forall|i: int| 0 <= i < nodes@.len() ==> node_fits(#[trigger] nodes@[i]),
            snap.spells@ == spells_of(nodes@.subrange(0, k as int)),
            snap.melee_skill == melee_attr(nodes@.subrange(0, k as int), "skill"@),
            snap.melee_attack == melee_attr(nodes@.subrange(0, k as int), "attack"@),
            snap.poison_cycles == melee_attr(nodes@.subrange(0, k as int), "poisoncycles"@),
            snap.armor == (match mtype.defenses.armor { Some(a) => a, None => 0i32 }),
            snap.defense == (match mtype.defenses.defense { Some(d) => d, None => 0i32 }),
            snap.immunity_poison == mtype.defenses.immunity_poison,
            snap.immunity_fire == mtype.defenses.immunity_fire,
            snap.immunity_energy == mtype.defenses.immunity_energy,
            snap.immunity_life_drain == mtype.defenses.immunity_life_drain,
            snap.see_invisible == mtype.defenses.see_invisible,
            snap.immunity_physical == mtype.defenses.immunity_physical,
        decreases nodes@.len() - k,
    {
        let ghost pre = nodes@.subrange(0, k as int);
        let ghost next = nodes@.subrange(0, k + 1);
        assert(next.drop_last() =~= pre);
        assert(next.last() == nodes@[k as int]);
        assert(node_fits(nodes@[k as int]));
        let node = &nodes[k];
        let name = spell_name_of(node);
        let lname = lower_chars(name);
        if chars_are(&lname, "melee") {
            snap.melee_skill = parse_attr_i32(node, "skill", 0);
            snap.melee_attack = parse_attr_i32(node, "attack", 0);
            snap.poison_cycles = parse_attr_i32(node, "poisoncycles", 0);
        } else {
            match MonsterSpell::try_from_node(node) {
                Some(sp) => {
                    snap.spells.push(sp);
                },
                None => {},
            }
        }
        assert(snap.spells@ =~= spells_of(next));
        k = k + 1;
    }
    assert(nodes@.subrange(0, nodes@.len() as int) =~= nodes@);
    let ghost attacks = snap.spells@;
    let mut j: usize = 0;
    while j < mtype.summons.len()
        invariant
            j <= mtype.summons@.len(),
            snap.spells@ == attacks + summon_spells(mtype.summons@.subrange(0, j as int), mtype.max_summons),
            snap.melee_skill == melee_attr(mtype.attack_spells@, "skill"@),
            snap.melee_attack == melee_attr(mtype.attack_spells@, "attack"@),
            snap.poison_cycles == melee_attr(mtype.attack_spells@, "poisoncycles"@),
            snap.armor == (match mtype.defenses.armor { Some(a) => a, None => 0i32 }),
            snap.defense == (match mtype.defenses.defense { Some(d) => d, None => 0i32 }),
            snap.immunity_poison == mtype.defenses.immunity_poison,
            snap.immunity_fire == mtype.defenses.immunity_fire,
            snap.immunity_energy == mtype.defenses.immunity_energy,
            snap.immunity_life_drain == mtype.defenses.immunity_life_drain,
            snap.see_invisible == mtype.defenses.see_invisible,
            snap.immunity_physical == mtype.defenses.immunity_physical,
        decreases mtype.summons@.len() - j,
    {
        let sp = make_summon_spell(&mtype.summons[j], mtype.max_summons);
        snap.spells.push(sp);
        assert(mtype.summons@.subrange(0, j + 1) =~= mtype.summons@.subrange(0, j as int).push(mtype.summons@[j as int]));
        assert(snap.spells@ =~= attacks + summon_spells(mtype.summons@.subrange(0, j + 1), mtype.max_summons));
        j = j + 1;
    }
    assert(mtype.summons@.subrange(0, mtype.summons@.len() as int) =~= mtype.summons@);
    push_node_spells(&mut snap.spells, &mtype.defenses.spells);
    snap
}

} // verus!
