//! Area combat helpers: the element of a script's combat type, which field or wall a
//! spell creates on a tile given the world's and tile's PvP rules, and the decisions an
//! area spell takes per tile and per creature hit.

use vstd::prelude::*;
use crate::combat::pvp::{WorldType, ZoneType};
use crate::combat::CombatType;
use crate::ids::{CreatureId, Position};

verus! {

pub const ITEM_FIREFIELD_PVP_FULL: u16 = 1487;
pub const ITEM_FIREFIELD_PVP_MEDIUM: u16 = 1488;
pub const ITEM_FIREFIELD_PVP_SMALL: u16 = 1489;
pub const ITEM_FIREFIELD_PERSISTENT_FULL: u16 = 1492;
pub const ITEM_FIREFIELD_PERSISTENT_MEDIUM: u16 = 1493;
pub const ITEM_FIREFIELD_PERSISTENT_SMALL: u16 = 1494;
pub const ITEM_FIREFIELD_NOPVP: u16 = 1500;
pub const ITEM_POISONFIELD_PVP: u16 = 1490;
pub const ITEM_POISONFIELD_PERSISTENT: u16 = 1496;
pub const ITEM_POISONFIELD_NOPVP: u16 = 1503;
pub const ITEM_ENERGYFIELD_PVP: u16 = 1491;
pub const ITEM_ENERGYFIELD_PERSISTENT: u16 = 1495;
pub const ITEM_ENERGYFIELD_NOPVP: u16 = 1504;
pub const ITEM_MAGICWALL: u16 = 1497;
pub const ITEM_MAGICWALL_PERSISTENT: u16 = 1498;
pub const ITEM_MAGICWALL_NOPVP: u16 = 20669;
pub const ITEM_WILDGROWTH: u16 = 1499;
pub const ITEM_WILDGROWTH_PERSISTENT: u16 = 2721;
pub const ITEM_WILDGROWTH_NOPVP: u16 = 20670;

/// The element of a script combat-type flag: none 0 (no element), physical 1, energy 2,
/// earth 4, fire 8, undefined 16, life drain 32, mana drain 64, healing 128; anything
/// else physical.
pub open spec fn combat_type_of(value: i32) -> CombatType {
    if value == 0 || value == 16 {
        CombatType::Undefined
    } else if value == 2 {
        CombatType::Energy
    } else if value == 4 {
        CombatType::Earth
    } else if value == 8 {
        CombatType::Fire
    } else if value == 32 {
        CombatType::LifeDrain
    } else if value == 64 {
        CombatType::ManaDrain
    } else if value == 128 {
        CombatType::Healing
    } else {
        CombatType::Physical
    }
}

pub fn combat_type_from_lua(value: i32) -> (r: CombatType)
    ensures
        r == combat_type_of(value),
        (value == 0 || value == 16) ==> r == CombatType::Undefined,
        value == 1 ==> r == CombatType::Physical,
        value == 2 ==> r == CombatType::Energy,
        value == 4 ==> r == CombatType::Earth,
        value == 8 ==> r == CombatType::Fire,
        value == 32 ==> r == CombatType::LifeDrain,
        value == 64 ==> r == CombatType::ManaDrain,
        value == 128 ==> r == CombatType::Healing,
        !(value == 0 || value == 1 || value == 2 || value == 4 || value == 8 || value == 16 || value == 32
            || value == 64 || value == 128) ==> r == CombatType::Physical,
{
    match value {
        0 => CombatType::Undefined,
        1 => CombatType::Physical,
        2 => CombatType::Energy,
        4 => CombatType::Earth,
        8 => CombatType::Fire,
        16 => CombatType::Undefined,
        32 => CombatType::LifeDrain,
        64 => CombatType::ManaDrain,
        128 => CombatType::Healing,
        _ => CombatType::Physical,
    }
}

/// A persistent field or wall becomes its PvP kind.
pub open spec fn unpersist(raw: u16) -> u16 {
    if raw == ITEM_FIREFIELD_PERSISTENT_FULL { ITEM_FIREFIELD_PVP_FULL }
    else if raw == ITEM_FIREFIELD_PERSISTENT_MEDIUM { ITEM_FIREFIELD_PVP_MEDIUM }
    else if raw == ITEM_FIREFIELD_PERSISTENT_SMALL { ITEM_FIREFIELD_PVP_SMALL }
    else if raw == ITEM_ENERGYFIELD_PERSISTENT { ITEM_ENERGYFIELD_PVP }
    else if raw == ITEM_POISONFIELD_PERSISTENT { ITEM_POISONFIELD_PVP }
    else if raw == ITEM_MAGICWALL_PERSISTENT { ITEM_MAGICWALL }
    else if raw == ITEM_WILDGROWTH_PERSISTENT { ITEM_WILDGROWTH }
    else { raw }
}

/// A PvP field or wall becomes its no-PvP kind.
pub open spec fn no_pvp_kind(id: u16) -> u16 {
    if id == ITEM_FIREFIELD_PVP_FULL { ITEM_FIREFIELD_NOPVP }
    else if id == ITEM_POISONFIELD_PVP { ITEM_POISONFIELD_NOPVP }
    else if id == ITEM_ENERGYFIELD_PVP { ITEM_ENERGYFIELD_NOPVP }
    else if id == ITEM_MAGICWALL { ITEM_MAGICWALL_NOPVP }
    else if id == ITEM_WILDGROWTH { ITEM_WILDGROWTH_NOPVP }
    else { id }
}

/// The field and wall kinds a spell creates, item by item: a persistent kind and its
/// PvP kind create the PvP kind, or the no-PvP kind when `no_pvp` (a player or a
/// player's summon casting in a no-PvP world or zone) and there is one (full fire field,
/// poison field, energy field, magic wall, wild growth); the medium and small fire fields
/// have no no-PvP kind; any other item is created as it is.
pub open spec fn create_item_rules(raw: u16, no_pvp: bool, r: u16) -> bool {
    &&& (raw == ITEM_WILDGROWTH || raw == ITEM_WILDGROWTH_PERSISTENT)
        ==> r == (if no_pvp { ITEM_WILDGROWTH_NOPVP } else { ITEM_WILDGROWTH })
    &&& (raw == ITEM_MAGICWALL || raw == ITEM_MAGICWALL_PERSISTENT)
        ==> r == (if no_pvp { ITEM_MAGICWALL_NOPVP } else { ITEM_MAGICWALL })
    &&& (raw == ITEM_FIREFIELD_PVP_FULL || raw == ITEM_FIREFIELD_PERSISTENT_FULL)
        ==> r == (if no_pvp { ITEM_FIREFIELD_NOPVP } else { ITEM_FIREFIELD_PVP_FULL })
    &&& (raw == ITEM_POISONFIELD_PVP || raw == ITEM_POISONFIELD_PERSISTENT)
        ==> r == (if no_pvp { ITEM_POISONFIELD_NOPVP } else { ITEM_POISONFIELD_PVP })
    &&& (raw == ITEM_ENERGYFIELD_PVP || raw == ITEM_ENERGYFIELD_PERSISTENT)
        ==> r == (if no_pvp { ITEM_ENERGYFIELD_NOPVP } else { ITEM_ENERGYFIELD_PVP })
    &&& (raw == ITEM_FIREFIELD_PVP_MEDIUM || raw == ITEM_FIREFIELD_PERSISTENT_MEDIUM) ==> r == ITEM_FIREFIELD_PVP_MEDIUM
    &&& (raw == ITEM_FIREFIELD_PVP_SMALL || raw == ITEM_FIREFIELD_PERSISTENT_SMALL) ==> r == ITEM_FIREFIELD_PVP_SMALL
    &&& !(raw == ITEM_WILDGROWTH || raw == ITEM_WILDGROWTH_PERSISTENT || raw == ITEM_MAGICWALL
        || raw == ITEM_MAGICWALL_PERSISTENT || raw == ITEM_FIREFIELD_PVP_FULL || raw == ITEM_FIREFIELD_PERSISTENT_FULL
        || raw == ITEM_POISONFIELD_PVP || raw == ITEM_POISONFIELD_PERSISTENT || raw == ITEM_ENERGYFIELD_PVP
        || raw == ITEM_ENERGYFIELD_PERSISTENT || raw == ITEM_FIREFIELD_PVP_MEDIUM || raw == ITEM_FIREFIELD_PERSISTENT_MEDIUM
        || raw == ITEM_FIREFIELD_PVP_SMALL || raw == ITEM_FIREFIELD_PERSISTENT_SMALL) ==> r == raw
}

/// The created item follows `create_item_rules` for every input: in particular a player
/// (or a player's summon) in a no-PvP world or zone never creates a PvP field or wall,
/// and nothing creates a persistent kind.
pub proof fn lemma_create_item_rules(raw: u16, world_type: WorldType, tile_zone: ZoneType, caster_is_player_or_summon: bool)
    ensures
        create_item_rules(raw, caster_is_player_or_summon && (world_type == WorldType::NoPvp || tile_zone == ZoneType::NoPvp),
            if caster_is_player_or_summon && (world_type == WorldType::NoPvp || tile_zone == ZoneType::NoPvp) {
                no_pvp_kind(unpersist(raw))
            } else {
                unpersist(raw)
            }),
        caster_is_player_or_summon && (world_type == WorldType::NoPvp || tile_zone == ZoneType::NoPvp) ==> {
            let r = no_pvp_kind(unpersist(raw));
            &&& r != ITEM_WILDGROWTH && r != ITEM_MAGICWALL && r != ITEM_FIREFIELD_PVP_FULL
            &&& r != ITEM_POISONFIELD_PVP && r != ITEM_ENERGYFIELD_PVP
        },
        unpersist(raw) != ITEM_WILDGROWTH_PERSISTENT && unpersist(raw) != ITEM_MAGICWALL_PERSISTENT
            && unpersist(raw) != ITEM_FIREFIELD_PERSISTENT_FULL && unpersist(raw) != ITEM_POISONFIELD_PERSISTENT
            && unpersist(raw) != ITEM_ENERGYFIELD_PERSISTENT,
{
}

/// The item a spell creates for `raw`: persistent kinds become PvP kinds, and a player
/// (or a player's summon) casting in a no-PvP world or zone creates the no-PvP kind.
pub fn remap_create_item_id(raw: u16, world_type: WorldType, tile_zone: ZoneType, caster_is_player_or_summon: bool) -> (r: u16)
    ensures
        r == (if caster_is_player_or_summon && (world_type == WorldType::NoPvp || tile_zone == ZoneType::NoPvp) {
            no_pvp_kind(unpersist(raw))
        } else {
            unpersist(raw)
        }),
        create_item_rules(raw, caster_is_player_or_summon && (world_type == WorldType::NoPvp || tile_zone == ZoneType::NoPvp), r),
{
    let mut item_id = match raw {
        ITEM_FIREFIELD_PERSISTENT_FULL => ITEM_FIREFIELD_PVP_FULL,
        ITEM_FIREFIELD_PERSISTENT_MEDIUM => ITEM_FIREFIELD_PVP_MEDIUM,
        ITEM_FIREFIELD_PERSISTENT_SMALL => ITEM_FIREFIELD_PVP_SMALL,
        ITEM_ENERGYFIELD_PERSISTENT => ITEM_ENERGYFIELD_PVP,
        ITEM_POISONFIELD_PERSISTENT => ITEM_POISONFIELD_PVP,
        ITEM_MAGICWALL_PERSISTENT => ITEM_MAGICWALL,
        ITEM_WILDGROWTH_PERSISTENT => ITEM_WILDGROWTH,
        other => other,
    };
    let no_pvp_world = match world_type {
        WorldType::NoPvp => true,
        _ => false,
    };
    let no_pvp_zone = match tile_zone {
        ZoneType::NoPvp => true,
        _ => false,
    };
    if caster_is_player_or_summon && (no_pvp_world || no_pvp_zone) {
        item_id = match item_id {
            ITEM_FIREFIELD_PVP_FULL => ITEM_FIREFIELD_NOPVP,
            ITEM_POISONFIELD_PVP => ITEM_POISONFIELD_NOPVP,
            ITEM_ENERGYFIELD_PVP => ITEM_ENERGYFIELD_NOPVP,
            ITEM_MAGICWALL => ITEM_MAGICWALL_NOPVP,
            ITEM_WILDGROWTH => ITEM_WILDGROWTH_NOPVP,
            other => other,
        };
    }
    item_id
}

/// Creating a full PvP fire field, a PvP poison field or a PvP energy field puts the
/// caster in fight.
pub fn create_item_applies_infight(item_id: u16) -> (r: bool)
    ensures
        r == (item_id == ITEM_FIREFIELD_PVP_FULL || item_id == ITEM_POISONFIELD_PVP || item_id == ITEM_ENERGYFIELD_PVP),
{
    item_id == ITEM_FIREFIELD_PVP_FULL || item_id == ITEM_POISONFIELD_PVP || item_id == ITEM_ENERGYFIELD_PVP
}

/// An aggressive spell cast by a caster standing in a protection zone does nothing.
pub fn aoe_cast_blocked(aggressive: bool, caster_in_protection_zone: bool) -> (r: bool)
    ensures
        r == (aggressive && caster_in_protection_zone),
{
    aggressive && caster_in_protection_zone
}

/// The tile at offset `(dx, dy)` from `center`, on the centre's floor; `None` when a
/// coordinate falls below 0. A coordinate above `u16::MAX` keeps its low 16 bits.
pub fn aoe_tile_position(center: Position, dx: i32, dy: i32) -> (r: Option<Position>)
    requires
        center.x + dx <= i32::MAX,
        center.y + dy <= i32::MAX,
        center.x + dx >= i32::MIN,
        center.y + dy >= i32::MIN,
    ensures
        (center.x + dx < 0 || center.y + dy < 0) ==> r is None,
        (center.x + dx >= 0 && center.y + dy >= 0) ==> r == Some(Position {
            x: ((center.x + dx) % 0x10000) as u16,
            y: ((center.y + dy) % 0x10000) as u16,
            z: center.z,
        }),
{
    let tx: i32 = center.x as i32 + dx;
    let ty: i32 = center.y as i32 + dy;
    if tx < 0 || ty < 0 {
        return None;
    }
    Some(Position { x: (tx % 0x10000) as u16, y: (ty % 0x10000) as u16, z: center.z })
}

/// What an area spell does on one tile of its area.
#[derive(Debug, Clone, Copy, PartialEq, Eq, Structural)]
pub struct AoeTileAction {
    /// The tile is hit: its creatures are targets.
    pub affected: bool,
    /// The spell's magic effect shows on the tile.
    pub show_effect: bool,
    /// The spell's field or wall item is created on the tile.
    pub create_item: bool,
}

/// The decision for one tile from its plain facts: an aggressive spell skips a
/// protection-zone tile, and every spell skips a tile out of line of throw from the
/// spell's origin; an affected tile shows the effect when the spell has one (`effect`
/// above 0) and gets the spell's item when it creates one (`create_item` above 0).
pub fn aoe_tile_action(
    aggressive: bool,
    tile_in_protection_zone: bool,
    throw_possible: bool,
    effect: i32,
    create_item: i32,
) -> (r: AoeTileAction)
    ensures
        r.affected == (!(aggressive && tile_in_protection_zone) && throw_possible),
        r.show_effect == (r.affected && effect > 0),
        r.create_item == (r.affected && create_item > 0),
{
    let affected = !(aggressive && tile_in_protection_zone) && throw_possible;
    AoeTileAction { affected, show_effect: affected && effect > 0, create_item: affected && create_item > 0 }
}

/// A spell deals no damage when it says so, has no element, or has the range 0..0.
pub fn aoe_no_damage(no_damage: bool, combat_type: CombatType, damage_min: i32, damage_max: i32) -> (r: bool)
    ensures
        r == (no_damage || combat_type == CombatType::Undefined || (damage_min == 0 && damage_max == 0)),
{
    let undefined = match combat_type {
        CombatType::Undefined => true,
        _ => false,
    };
    no_damage || undefined || (damage_min == 0 && damage_max == 0)
}

/// An aggressive spell spares its own caster; other spells (light, haste) reach it.
pub fn aoe_spares_target(aggressive: bool, target: CreatureId, caster: Option<CreatureId>) -> (r: bool)
    ensures
        r == (aggressive && caster == Some(target)),
{
    aggressive && match caster {
        Some(c) => c == target,
        None => false,
    }
}

/// The signed health change an area spell deals, with the effect shown when a physical
/// hit is fully blocked (3 when the shield roll alone stops it, else 4).
pub open spec fn aoe_damage_of(
    combat_type: CombatType,
    value: int,
    block_shield: bool,
    defense_roll: int,
    block_armor: bool,
    armor_roll: int,
) -> (int, Option<u8>) {
    let mag = if value < 0 { -value } else { value };
    if combat_type == CombatType::Healing {
        (if value > 0 { value } else { 0 }, None)
    } else if combat_type == CombatType::Physical {
        let a1 = if block_shield { if mag - defense_roll > 0 { mag - defense_roll } else { 0 } } else { mag };
        let ar = if armor_roll > 0 { armor_roll } else { 0 };
        let a2 = if block_armor { if a1 - ar > 0 { a1 - ar } else { 0 } } else { a1 };
        (-a2, if a2 <= 0 { Some(if block_shield && defense_roll >= mag { 3u8 } else { 4u8 }) } else { None })
    } else {
        (-mag, None)
    }
}

/// `|x|`.
pub open spec fn magnitude(x: int) -> int {
    if x < 0 { -x } else { x }
}

/// `x`, or 0 when negative.
pub open spec fn at_least_zero(x: int) -> int {
    if x > 0 { x } else { 0 }
}

/// What a physical area hit of `value` does, given its blocks: the loss is `|value|`
/// less the shield roll (when blocked by shields) and then less the armor roll (when
/// blocked by armor, a negative roll counting as 0), never below 0, and each block
/// applies whether or not the other one does; a hit reduced to nothing shows effect 3
/// when the shield roll alone covers `|value|`, else 4, and a hit that lands shows none.
pub open spec fn physical_hit_rules(value: int, block_shield: bool, defense_roll: int, block_armor: bool, armor_roll: int,
    change: int, effect: Option<u8>) -> bool {
    let after_shield = if block_shield { at_least_zero(magnitude(value) - defense_roll) } else { magnitude(value) };
    let after_armor = if block_armor { at_least_zero(after_shield - at_least_zero(armor_roll)) } else { after_shield };
    &&& change <= 0
    &&& change == -after_armor
    &&& !block_shield && !block_armor ==> change == -magnitude(value)
    &&& block_armor && !block_shield ==> change == -at_least_zero(magnitude(value) - at_least_zero(armor_roll))
    &&& block_shield && !block_armor ==> change == -at_least_zero(magnitude(value) - defense_roll)
    &&& (effect is Some) == (change == 0)
    &&& change == 0 ==> effect == Some(if block_shield && defense_roll >= magnitude(value) { 3u8 } else { 4u8 })
}

/// The per-creature damage rule of an area spell, over every input: healing heals the
/// roll (never below 0); an element other than physical hits for `|value|` whatever the
/// blocks; a physical hit follows `physical_hit_rules`, so armor reduces it with or
/// without a shield block, and a larger armor or shield roll never makes it hurt more.
pub proof fn lemma_area_damage_rules(
    combat_type: CombatType,
    value: int,
    block_shield: bool,
    defense_roll: int,
    block_armor: bool,
    armor_roll: int,
    armor_roll2: int,
    defense_roll2: int,
)
    ensures
        combat_type == CombatType::Healing ==> aoe_damage_of(combat_type, value, block_shield, defense_roll, block_armor, armor_roll)
            == (at_least_zero(value), None::<u8>),
        combat_type != CombatType::Healing && combat_type != CombatType::Physical
            ==> aoe_damage_of(combat_type, value, block_shield, defense_roll, block_armor, armor_roll) == (-magnitude(value), None::<u8>),
        combat_type == CombatType::Physical ==> physical_hit_rules(value, block_shield, defense_roll, block_armor, armor_roll,
            aoe_damage_of(combat_type, value, block_shield, defense_roll, block_armor, armor_roll).0,
            aoe_damage_of(combat_type, value, block_shield, defense_roll, block_armor, armor_roll).1),
        combat_type == CombatType::Physical && armor_roll <= armor_roll2 && defense_roll <= defense_roll2 ==>
            aoe_damage_of(combat_type, value, block_shield, defense_roll, block_armor, armor_roll).0
                <= aoe_damage_of(combat_type, value, block_shield, defense_roll2, block_armor, armor_roll2).0,
{
}

/// The health change of one creature hit by an area spell that rolled `value`: healing
/// gives `value` (at least 0); a physical hit loses the shield roll (when the spell is
/// blocked by shields) and then the armor roll (when blocked by armor), never below 0;
/// other elements hit for `|value|`.
pub fn aoe_signed_damage(
    combat_type: CombatType,
    value: i32,
    block_shield: bool,
    defense_roll: i32,
    block_armor: bool,
    armor_roll: i32,
) -> (r: (i32, Option<u8>))
    requires
        value != i32::MIN,
        block_shield ==> (if value < 0 { -value } else { value as int }) - defense_roll <= i32::MAX,
    ensures
        (r.0 as int, r.1) == aoe_damage_of(combat_type, value as int, block_shield, defense_roll as int, block_armor, armor_roll as int),
        combat_type == CombatType::Healing ==> r.0 == (if value > 0 { value } else { 0 }) && r.1 is None,
        combat_type != CombatType::Healing && combat_type != CombatType::Physical ==> r.0 == -magnitude(value as int) && r.1 is None,
        combat_type == CombatType::Physical ==> physical_hit_rules(value as int, block_shield, defense_roll as int, block_armor, armor_roll as int, r.0 as int, r.1),
{
    let mag: i32 = if value < 0 { -value } else { value };
    match combat_type {
        CombatType::Healing => (if value > 0 { value } else { 0 }, None),
        CombatType::Physical => {
            let mut a: i32 = mag;
            if block_shield {
                a = if a - defense_roll > 0 { a - defense_roll } else { 0 };
            }
            if block_armor {
                let ar: i32 = if armor_roll > 0 { armor_roll } else { 0 };
                a = if a - ar > 0 { a - ar } else { 0 };
            }
            let fx = if a <= 0 {
                Some(if block_shield && defense_roll >= mag { 3u8 } else { 4u8 })
            } else {
                None
            };
            (-a, fx)
        },
        _ => (-mag, None),
    }
}

} // verus!
