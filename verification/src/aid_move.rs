//! Positions named by tile scripts: where a relocation goes and where an effect shows,
//! either absolute or relative to the item that triggered the script.

use vstd::prelude::*;
use crate::ids::Position;

verus! {

/// Where a relocation sends things.
#[derive(Debug, Clone, Copy, PartialEq, Eq, Structural)]
pub enum RelocTo {
    Absolute { x: u16, y: u16, z: u8 },
    /// The item's `x` shifted by `dx`, with a given `y` and floor.
    ItemXOffset { dx: i16, y: u16, z: u8 },
    /// The item's `x` and `y` shifted by `dx` and `dy`, on a given floor.
    ItemRelative { dx: i16, dy: i16, z: u8 },
}

/// Where an effect shows.
#[derive(Debug, Clone, Copy, PartialEq, Eq, Structural)]
pub enum EffectPosition {
    Absolute { x: u16, y: u16, z: u8 },
    ItemPosition,
    ItemXOffset { dx: i16, y: u16, z: u8 },
    ItemRelative { dx: i16, dy: i16, z: u8 },
}

/// `base + delta` kept within `0..=65535`.
pub open spec fn offset(base: u16, delta: i16) -> u16 {
    let v = base + delta;
    (if v < 0 { 0 } else if v > u16::MAX { u16::MAX as int } else { v }) as u16
}

pub fn apply_i16_offset(base: u16, delta: i16) -> (r: u16)
    ensures
        r == offset(base, delta),
{
    let v = base as i32 + delta as i32;
    if v < 0 {
        0
    } else if v > 0xffff {
        0xffff
    } else {
        v as u16
    }
}

/// The tile a relocation goes to, from the triggering item's position.
pub open spec fn reloc_target(to: RelocTo, item_pos: Position) -> Position {
    match to {
        RelocTo::Absolute { x, y, z } => Position { x, y, z },
        RelocTo::ItemXOffset { dx, y, z } => Position { x: offset(item_pos.x, dx), y, z },
        RelocTo::ItemRelative { dx, dy, z } => Position { x: offset(item_pos.x, dx), y: offset(item_pos.y, dy), z },
    }
}

pub fn resolve_reloc_to_pos(to: &RelocTo, item_pos: Position) -> (r: Position)
    ensures
        r == reloc_target(*to, item_pos),
{
    match *to {
        RelocTo::Absolute { x, y, z } => Position::new(x, y, z),
        RelocTo::ItemXOffset { dx, y, z } => Position::new(apply_i16_offset(item_pos.x, dx), y, z),
        RelocTo::ItemRelative { dx, dy, z } => Position::new(
            apply_i16_offset(item_pos.x, dx),
            apply_i16_offset(item_pos.y, dy),
            z,
        ),
    }
}

/// The tile an effect shows on, from the triggering item's position.
pub open spec fn effect_target(spec: EffectPosition, item_pos: Position) -> Position {
    match spec {
        EffectPosition::Absolute { x, y, z } => Position { x, y, z },
        EffectPosition::ItemPosition => item_pos,
        EffectPosition::ItemXOffset { dx, y, z } => Position { x: offset(item_pos.x, dx), y, z },
        EffectPosition::ItemRelative { dx, dy, z } => Position { x: offset(item_pos.x, dx), y: offset(item_pos.y, dy), z },
    }
}

pub fn resolve_effect_pos(spec: &EffectPosition, item_pos: Position) -> (r: Position)
    ensures
        r == effect_target(*spec, item_pos),
{
    match *spec {
        EffectPosition::Absolute { x, y, z } => Position::new(x, y, z),
        EffectPosition::ItemPosition => item_pos,
        EffectPosition::ItemXOffset { dx, y, z } => Position::new(apply_i16_offset(item_pos.x, dx), y, z),
        EffectPosition::ItemRelative { dx, dy, z } => Position::new(
            apply_i16_offset(item_pos.x, dx),
            apply_i16_offset(item_pos.y, dy),
            z,
        ),
    }
}

/// Where a relocation takes things from.
#[derive(Debug, Clone, Copy, PartialEq, Eq, Structural)]
pub enum RelocFrom {
    ItemPosition,
    Absolute { x: u16, y: u16, z: u8 },
}

/// A relocation: one target, or by vocation one of two.
#[derive(Debug, Clone, Copy, PartialEq, Eq, Structural)]
pub enum AidMoveRelocSpec {
    Single { from: RelocFrom, to: RelocTo },
    VocationBranch { from: RelocFrom, then_to: RelocTo, else_to: RelocTo },
}

/// Who a tile script runs for.
#[derive(Debug, Clone, PartialEq, Eq)]
pub enum AidMoveGate {
    /// No condition (the name `None` is taken by `Option`).
    Always,
    IsPlayer,
    PlayerLevelBelow { level: u32 },
    PlayerNotPremium,
    VocationBranch { is_player: bool, vocation_ids: Vec<u8> },
}

/// What a gate reads of the creature that triggered the script.
#[derive(Debug, Clone, Copy, PartialEq, Eq, Structural)]
pub struct MoveActor {
    pub is_player: bool,
    pub level: i32,
    pub premium: bool,
    pub vocation_id: i32,
}

/// Whether `gate` lets the script run for `actor` (none for an item moved by no one):
/// no gate always; a player gate for players; a level gate for players below the level
/// (levels past `i32` count as `i32::MAX`); a premium gate for players without premium;
/// a vocation branch for players when it asks for one, else always.
pub open spec fn gate_allows_spec(gate: AidMoveGate, actor: Option<MoveActor>) -> bool {
    match gate {
        AidMoveGate::Always => true,
        AidMoveGate::IsPlayer => actor matches Some(a) && a.is_player,
        AidMoveGate::PlayerLevelBelow { level } => actor matches Some(a) && a.is_player
            && a.level < (if level > i32::MAX { i32::MAX as int } else { level as int }),
        AidMoveGate::PlayerNotPremium => actor matches Some(a) && !a.premium,
        AidMoveGate::VocationBranch { is_player, .. } => !is_player || (actor matches Some(a) && a.is_player),
    }
}

pub fn gate_allows(gate: &AidMoveGate, actor: Option<MoveActor>) -> (r: bool)
    ensures
        r == gate_allows_spec(*gate, actor),
{
    match gate {
        AidMoveGate::Always => true,
        AidMoveGate::IsPlayer => match actor {
            Some(a) => a.is_player,
            None => false,
        },
        AidMoveGate::PlayerLevelBelow { level } => match actor {
            Some(a) => {
                let cap: i32 = if *level > i32::MAX as u32 { i32::MAX } else { *level as i32 };
                a.is_player && a.level < cap
            },
            None => false,
        },
        AidMoveGate::PlayerNotPremium => match actor {
            Some(a) => !a.premium,
            None => false,
        },
        AidMoveGate::VocationBranch { is_player, .. } => {
            if *is_player {
                match actor {
                    Some(a) => a.is_player,
                    None => false,
                }
            } else {
                true
            }
        },
    }
}

/// The actor is a player whose vocation (0 when it does not fit a byte) is among `ids`.
pub open spec fn vocation_matches_spec(actor: Option<MoveActor>, ids: Seq<u8>) -> bool {
    actor matches Some(a) && a.is_player
        && ids.contains((if 0 <= a.vocation_id <= 255 { a.vocation_id } else { 0 }) as u8)
}

pub fn vocation_matches(actor: Option<MoveActor>, ids: &Vec<u8>) -> (r: bool)
    ensures
        r == vocation_matches_spec(actor, ids@),
{
    let a = match actor {
        Some(a) => a,
        None => return false,
    };
    if !a.is_player {
        return false;
    }
    let vid: u8 = if 0 <= a.vocation_id && a.vocation_id <= 255 { a.vocation_id as u8 } else { 0 };
    let mut i: usize = 0;
    while i < ids.len()
        invariant
            i <= ids@.len(),
            actor == Some(a),
            a.is_player,
            vid == (if 0 <= a.vocation_id <= 255 { a.vocation_id } else { 0 }) as u8,
            forall|j: int| 0 <= j < i ==> ids@[j] != vid,
        decreases ids@.len() - i,
    {
        if ids[i] == vid {
            assert(ids@[i as int] == vid);
            return true;
        }
        i = i + 1;
    }
    false
}

/// The tile a relocation takes things from.
pub open spec fn reloc_source(spec: AidMoveRelocSpec, item_pos: Position) -> Position {
    let from = match spec {
        AidMoveRelocSpec::Single { from, .. } => from,
        AidMoveRelocSpec::VocationBranch { from, .. } => from,
    };
    match from {
        RelocFrom::ItemPosition => item_pos,
        RelocFrom::Absolute { x, y, z } => Position { x, y, z },
    }
}

pub fn resolve_reloc_from(spec: &AidMoveRelocSpec, item_pos: Position) -> (r: Position)
    ensures
        r == reloc_source(*spec, item_pos),
{
    let from = match *spec {
        AidMoveRelocSpec::Single { from, .. } => from,
        AidMoveRelocSpec::VocationBranch { from, .. } => from,
    };
    match from {
        RelocFrom::ItemPosition => item_pos,
        RelocFrom::Absolute { x, y, z } => Position::new(x, y, z),
    }
}

/// The tile a relocation sends things to. With targets by vocation, players of a listed
/// vocation go to `then_to`, all others to `else_to`.
pub open spec fn reloc_destination(gate: AidMoveGate, spec: AidMoveRelocSpec, item_pos: Position, actor: Option<MoveActor>) -> Position {
    match spec {
        AidMoveRelocSpec::Single { to, .. } => reloc_target(to, item_pos),
        AidMoveRelocSpec::VocationBranch { then_to, else_to, .. } => {
            let hit = match gate {
                AidMoveGate::VocationBranch { vocation_ids, .. } => vocation_matches_spec(actor, vocation_ids@),
                _ => false,
            };
            if hit { reloc_target(then_to, item_pos) } else { reloc_target(else_to, item_pos) }
        },
    }
}

pub fn resolve_reloc_to(gate: &AidMoveGate, spec: &AidMoveRelocSpec, item_pos: Position, actor: Option<MoveActor>) -> (r: Position)
    ensures
        r == reloc_destination(*gate, *spec, item_pos, actor),
{
    match *spec {
        AidMoveRelocSpec::Single { to, .. } => resolve_reloc_to_pos(&to, item_pos),
        AidMoveRelocSpec::VocationBranch { then_to, else_to, .. } => {
            let hit = match gate {
                AidMoveGate::VocationBranch { vocation_ids, .. } => vocation_matches(actor, vocation_ids),
                _ => false,
            };
            if hit { resolve_reloc_to_pos(&then_to, item_pos) } else { resolve_reloc_to_pos(&else_to, item_pos) }
        },
    }
}

} // verus!
