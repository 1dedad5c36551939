//! Whether one player may attack another: protection level, secure mode, world type and
//! PvP zones.

use vstd::prelude::*;

verus! {

/// Skull shown over a player.
#[derive(Debug, Clone, Copy, PartialEq, Eq, Structural)]
pub enum SkullType {
    /// No skull (the name `None` is taken by `Option`).
    NoSkull,
    Yellow,
    Green,
    White,
    Red,
    Black,
    Orange,
}

/// Kind of zone a tile belongs to.
#[derive(Debug, Clone, Copy, PartialEq, Eq, Structural)]
pub enum ZoneType {
    Protection,
    NoPvp,
    Pvp,
    NoLogout,
    Normal,
}

/// PvP rules of the world.
#[derive(Debug, Clone, Copy, PartialEq, Eq, Structural)]
pub enum WorldType {
    NoPvp,
    Pvp,
    PvpEnforced,
}

/// Why an attack on a player is refused.
#[derive(Debug, Clone, Copy, PartialEq, Eq, Structural)]
pub enum CombatDenyReason {
    /// The attacker is in secure mode and the target is unmarked.
    SecureModeUnmarkedTarget,
    /// Below the protection level, or a vocation without PvP.
    Protected,
    /// A world without PvP, outside PvP zones.
    NoPvpWorld,
    /// The target stands in a no-PvP zone.
    TargetNoPvpZone,
    /// The attacker shoots out of a no-PvP zone.
    AttackerNoPvpZone,
}

/// What the PvP rules read of a player.
#[derive(Debug, Clone, Copy, PartialEq, Eq, Structural)]
pub struct PlayerPvpSnapshot {
    pub level: u32,
    pub skull: SkullType,
    /// The skull the attacker sees on this player as a target.
    pub target_skull_client: SkullType,
    pub zone: ZoneType,
    pub vocation_allows_pvp: bool,
    pub secure_mode: bool,
}

/// Protected: either player is below the protection level, either vocation forbids PvP,
/// or a black-skulled attacker targets an unmarked player.
pub open spec fn spec_is_protected(protection_level: u32, attacker: PlayerPvpSnapshot, target: PlayerPvpSnapshot) -> bool {
    target.level < protection_level || attacker.level < protection_level
        || !attacker.vocation_allows_pvp || !target.vocation_allows_pvp
        || (attacker.skull == SkullType::Black && target.target_skull_client == SkullType::NoSkull)
}

pub fn is_protected(protection_level: u32, attacker: &PlayerPvpSnapshot, target: &PlayerPvpSnapshot) -> (r: bool)
    ensures
        r == spec_is_protected(protection_level, *attacker, *target),
        target.level < protection_level ==> r,
        attacker.level < protection_level ==> r,
        !target.vocation_allows_pvp ==> r,
        !attacker.vocation_allows_pvp ==> r,
        attacker.skull == SkullType::Black && target.target_skull_client == SkullType::NoSkull ==> r,
        r ==> target.level < protection_level || attacker.level < protection_level
            || !target.vocation_allows_pvp || !attacker.vocation_allows_pvp
            || (attacker.skull == SkullType::Black && target.target_skull_client == SkullType::NoSkull),
{
    if target.level < protection_level || attacker.level < protection_level {
        return true;
    }
    if !attacker.vocation_allows_pvp || !target.vocation_allows_pvp {
        return true;
    }
    if attacker.skull == SkullType::Black && target.target_skull_client == SkullType::NoSkull {
        return true;
    }
    false
}

/// Both players stand in PvP zones.
pub fn is_in_pvp_zone(attacker_zone: ZoneType, target_zone: ZoneType) -> (r: bool)
    ensures
        r == (attacker_zone == ZoneType::Pvp && target_zone == ZoneType::Pvp),
{
    attacker_zone == ZoneType::Pvp && target_zone == ZoneType::Pvp
}

/// The verdict on a player attacking a player, checks in order: protection, secure
/// mode against an unmarked target outside PvP zones, a no-PvP world outside PvP zones,
/// a target in a no-PvP zone, an attacker in a no-PvP zone aiming at a tile that is
/// neither no-PvP nor protection.
pub open spec fn pvp_verdict(protection_level: u32, world_type: WorldType, attacker: PlayerPvpSnapshot, target: PlayerPvpSnapshot) -> Result<(), CombatDenyReason> {
    let both_pvp = attacker.zone == ZoneType::Pvp && target.zone == ZoneType::Pvp;
    if spec_is_protected(protection_level, attacker, target) {
        Err(CombatDenyReason::Protected)
    } else if attacker.secure_mode && !both_pvp && target.target_skull_client == SkullType::NoSkull {
        Err(CombatDenyReason::SecureModeUnmarkedTarget)
    } else if world_type == WorldType::NoPvp && !both_pvp {
        Err(CombatDenyReason::NoPvpWorld)
    } else if target.zone == ZoneType::NoPvp {
        Err(CombatDenyReason::TargetNoPvpZone)
    } else if attacker.zone == ZoneType::NoPvp && target.zone != ZoneType::NoPvp && target.zone != ZoneType::Protection {
        Err(CombatDenyReason::AttackerNoPvpZone)
    } else {
        Ok(())
    }
}

pub fn can_player_attack_player(protection_level: u32, world_type: WorldType, attacker: &PlayerPvpSnapshot, target: &PlayerPvpSnapshot) -> (r: Result<(), CombatDenyReason>)
    ensures
        r == pvp_verdict(protection_level, world_type, *attacker, *target),
        !target.vocation_allows_pvp ==> r == Err::<(), CombatDenyReason>(CombatDenyReason::Protected),
        !attacker.vocation_allows_pvp ==> r == Err::<(), CombatDenyReason>(CombatDenyReason::Protected),
        target.level < protection_level ==> r == Err::<(), CombatDenyReason>(CombatDenyReason::Protected),
        attacker.level < protection_level ==> r == Err::<(), CombatDenyReason>(CombatDenyReason::Protected),
        r is Ok ==> attacker.level >= protection_level && target.level >= protection_level
            && attacker.vocation_allows_pvp && target.vocation_allows_pvp
            && target.zone != ZoneType::NoPvp
            && (world_type == WorldType::NoPvp ==> attacker.zone == ZoneType::Pvp && target.zone == ZoneType::Pvp),
{
    if is_protected(protection_level, attacker, target) {
        return Err(CombatDenyReason::Protected);
    }
    if attacker.secure_mode && !is_in_pvp_zone(attacker.zone, target.zone)
        && target.target_skull_client == SkullType::NoSkull {
        return Err(CombatDenyReason::SecureModeUnmarkedTarget);
    }
    if world_type == WorldType::NoPvp && !is_in_pvp_zone(attacker.zone, target.zone) {
        return Err(CombatDenyReason::NoPvpWorld);
    }
    if target.zone == ZoneType::NoPvp {
        return Err(CombatDenyReason::TargetNoPvpZone);
    }
    if attacker.zone == ZoneType::NoPvp && target.zone != ZoneType::NoPvp && target.zone != ZoneType::Protection {
        return Err(CombatDenyReason::AttackerNoPvpZone);
    }
    Ok(())
}

/// The protection rule: an attack on a player is refused as `Protected` whenever either
/// player is below the protection level or has a vocation without PvP (whichever of the
/// two it is), or a black-skulled attacker aims at an unmarked player; and only then.
/// Every other refusal comes after it, so a protected pair is never told another reason.
pub proof fn lemma_protection_refuses(protection_level: u32, world_type: WorldType, attacker: PlayerPvpSnapshot, target: PlayerPvpSnapshot)
    ensures
        !target.vocation_allows_pvp ==> spec_is_protected(protection_level, attacker, target)
            && pvp_verdict(protection_level, world_type, attacker, target) == Err::<(), CombatDenyReason>(CombatDenyReason::Protected),
        !attacker.vocation_allows_pvp ==> spec_is_protected(protection_level, attacker, target)
            && pvp_verdict(protection_level, world_type, attacker, target) == Err::<(), CombatDenyReason>(CombatDenyReason::Protected),
        target.level < protection_level ==> spec_is_protected(protection_level, attacker, target)
            && pvp_verdict(protection_level, world_type, attacker, target) == Err::<(), CombatDenyReason>(CombatDenyReason::Protected),
        attacker.level < protection_level ==> spec_is_protected(protection_level, attacker, target)
            && pvp_verdict(protection_level, world_type, attacker, target) == Err::<(), CombatDenyReason>(CombatDenyReason::Protected),
        attacker.skull == SkullType::Black && target.target_skull_client == SkullType::NoSkull
            ==> pvp_verdict(protection_level, world_type, attacker, target) == Err::<(), CombatDenyReason>(CombatDenyReason::Protected),
        (target.level >= protection_level && attacker.level >= protection_level
            && target.vocation_allows_pvp && attacker.vocation_allows_pvp
            && !(attacker.skull == SkullType::Black && target.target_skull_client == SkullType::NoSkull))
            ==> !spec_is_protected(protection_level, attacker, target)
                && pvp_verdict(protection_level, world_type, attacker, target) != Err::<(), CombatDenyReason>(CombatDenyReason::Protected),
        spec_is_protected(protection_level, attacker, target) == spec_is_protected(protection_level,
            PlayerPvpSnapshot { vocation_allows_pvp: target.vocation_allows_pvp, ..attacker },
            PlayerPvpSnapshot { vocation_allows_pvp: attacker.vocation_allows_pvp, ..target }),
{
}

/// The world and zone rules of an attack that passes protection: secure mode spares an
/// unmarked target outside PvP zones; a no-PvP world allows fights only with both
/// players in PvP zones; nobody is attacked in a no-PvP zone; and an allowed attack
/// meets all of these.
pub proof fn lemma_world_and_zone_rules(protection_level: u32, world_type: WorldType, attacker: PlayerPvpSnapshot, target: PlayerPvpSnapshot)
    ensures
        target.zone == ZoneType::NoPvp ==> pvp_verdict(protection_level, world_type, attacker, target) is Err,
        world_type == WorldType::NoPvp && !(attacker.zone == ZoneType::Pvp && target.zone == ZoneType::Pvp)
            ==> pvp_verdict(protection_level, world_type, attacker, target) is Err,
        attacker.secure_mode && target.target_skull_client == SkullType::NoSkull
            && !(attacker.zone == ZoneType::Pvp && target.zone == ZoneType::Pvp)
            ==> pvp_verdict(protection_level, world_type, attacker, target) is Err,
        pvp_verdict(protection_level, world_type, attacker, target) is Ok ==>
            attacker.level >= protection_level && target.level >= protection_level
            && attacker.vocation_allows_pvp && target.vocation_allows_pvp
            && target.zone != ZoneType::NoPvp,
        (!spec_is_protected(protection_level, attacker, target) && attacker.zone == ZoneType::Pvp && target.zone == ZoneType::Pvp)
            ==> pvp_verdict(protection_level, world_type, attacker, target) is Ok,
{
}

/// The order of the refusals once protection passes: secure mode against an unmarked
/// target outside PvP zones first, then a no-PvP world outside PvP zones, then a target
/// in a no-PvP zone, then an attacker in a no-PvP zone aiming at a tile that is neither
/// no-PvP nor protection; with none of these the attack is allowed.
pub proof fn lemma_refusal_order(protection_level: u32, world_type: WorldType, attacker: PlayerPvpSnapshot, target: PlayerPvpSnapshot)
    requires
        target.level >= protection_level,
        attacker.level >= protection_level,
        attacker.vocation_allows_pvp,
        target.vocation_allows_pvp,
        !(attacker.skull == SkullType::Black && target.target_skull_client == SkullType::NoSkull),
    ensures
        ({
            let both_pvp = attacker.zone == ZoneType::Pvp && target.zone == ZoneType::Pvp;
            let secure = attacker.secure_mode && !both_pvp && target.target_skull_client == SkullType::NoSkull;
            let no_pvp_world = world_type == WorldType::NoPvp && !both_pvp;
            let target_safe = target.zone == ZoneType::NoPvp;
            let attacker_safe = attacker.zone == ZoneType::NoPvp && target.zone != ZoneType::NoPvp
                && target.zone != ZoneType::Protection;
            let v = pvp_verdict(protection_level, world_type, attacker, target);
            &&& secure ==> v == Err::<(), CombatDenyReason>(CombatDenyReason::SecureModeUnmarkedTarget)
            &&& !secure && no_pvp_world ==> v == Err::<(), CombatDenyReason>(CombatDenyReason::NoPvpWorld)
            &&& !secure && !no_pvp_world && target_safe ==> v == Err::<(), CombatDenyReason>(CombatDenyReason::TargetNoPvpZone)
            &&& !secure && !no_pvp_world && !target_safe && attacker_safe
                ==> v == Err::<(), CombatDenyReason>(CombatDenyReason::AttackerNoPvpZone)
            &&& !secure && !no_pvp_world && !target_safe && !attacker_safe ==> v == Ok::<(), CombatDenyReason>(())
        }),
{
}

} // verus!
