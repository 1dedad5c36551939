//! The stored form of a player's conditions: a byte blob of attribute records, each
//! condition a fixed header (type flag, id, ticks, buff flag, sub id, aggressive flag),
//! then attributes that depend on its payload, then an end marker. Integers are little
//! endian.

use vstd::prelude::*;
use crate::condition::{ActiveCondition, ConditionData, ConditionType};

verus! {

pub const CONDITIONATTR_TYPE: u8 = 1;
pub const CONDITIONATTR_ID: u8 = 2;
pub const CONDITIONATTR_TICKS: u8 = 3;
pub const CONDITIONATTR_HEALTHTICKS: u8 = 4;
pub const CONDITIONATTR_HEALTHGAIN: u8 = 5;
pub const CONDITIONATTR_MANATICKS: u8 = 6;
pub const CONDITIONATTR_MANAGAIN: u8 = 7;
pub const CONDITIONATTR_SPEEDDELTA: u8 = 25;
pub const CONDITIONATTR_FORMULA_MINA: u8 = 26;
pub const CONDITIONATTR_FORMULA_MINB: u8 = 27;
pub const CONDITIONATTR_FORMULA_MAXA: u8 = 28;
pub const CONDITIONATTR_FORMULA_MAXB: u8 = 29;
pub const CONDITIONATTR_LIGHTCOLOR: u8 = 30;
pub const CONDITIONATTR_LIGHTLEVEL: u8 = 31;
pub const CONDITIONATTR_LIGHTTICKS: u8 = 32;
pub const CONDITIONATTR_LIGHTINTERVAL: u8 = 33;
pub const CONDITIONATTR_OUTFIT: u8 = 38;
pub const CONDITIONATTR_ISBUFF: u8 = 40;
pub const CONDITIONATTR_SUBID: u8 = 41;
pub const CONDITIONATTR_ISAGGRESSIVE: u8 = 42;
pub const CONDITIONATTR_END: u8 = 254;

// ---------------------------------------------------------------------------
// Little-endian integers
// ---------------------------------------------------------------------------

/// The little-endian bytes of `v`.
pub open spec fn u32_le(v: u32) -> Seq<u8> {
    seq![(v % 256) as u8, ((v / 256) % 256) as u8, ((v / 65536) % 256) as u8, (v / 16777216) as u8]
}

pub open spec fn u16_le(v: u16) -> Seq<u8> {
    seq![(v % 256) as u8, (v / 256) as u8]
}

/// The little-endian `u32` at index `k` of `b` (four bytes there).
pub open spec fn u32_from(b: Seq<u8>, k: int) -> u32 {
    (b[k] as int + b[k + 1] as int * 256 + b[k + 2] as int * 65536 + b[k + 3] as int * 16777216) as u32
}

/// The little-endian `u16` at index `k` of `b` (two bytes there).
pub open spec fn u16_from(b: Seq<u8>, k: int) -> u16 {
    (b[k] as int + b[k + 1] as int * 256) as u16
}

proof fn lemma_u32_le(v: u32, tail: Seq<u8>)
    ensures
        (u32_le(v) + tail).len() == 4 + tail.len(),
        u32_from(u32_le(v) + tail, 0) == v,
        (u32_le(v) + tail).subrange(4, 4 + tail.len() as int) == tail,
{
    let b = u32_le(v) + tail;
    assert(b[0] == (v % 256) as u8);
    assert(b[1] == ((v / 256) % 256) as u8);
    assert(b[2] == ((v / 65536) % 256) as u8);
    assert(b[3] == (v / 16777216) as u8);
    assert((v % 256) as int + ((v / 256) % 256) as int * 256 + ((v / 65536) % 256) as int * 65536
        + (v / 16777216) as int * 16777216 == v as int) by (nonlinear_arith);
    assert(b.subrange(4, 4 + tail.len() as int) =~= tail);
}

proof fn lemma_u16_le(v: u16, tail: Seq<u8>)
    ensures
        (u16_le(v) + tail).len() == 2 + tail.len(),
        u16_from(u16_le(v) + tail, 0) == v,
        (u16_le(v) + tail).subrange(2, 2 + tail.len() as int) == tail,
{
    let b = u16_le(v) + tail;
    assert(b[0] == (v % 256) as u8);
    assert(b[1] == (v / 256) as u8);
    assert((v % 256) as int + (v / 256) as int * 256 == v as int) by (nonlinear_arith);
    assert(b.subrange(2, 2 + tail.len() as int) =~= tail);
}

fn write_u8(out: &mut Vec<u8>, v: u8)
    ensures
        final(out)@ == old(out)@.push(v),
{
    out.push(v);
}

fn write_u16(out: &mut Vec<u8>, v: u16)
    ensures
        final(out)@ == old(out)@ + u16_le(v),
{
    out.push((v % 256) as u8);
    out.push((v / 256) as u8);
    assert(out@ =~= old(out)@ + u16_le(v));
}

fn write_u32(out: &mut Vec<u8>, v: u32)
    ensures
        final(out)@ == old(out)@ + u32_le(v),
{
    out.push((v % 256) as u8);
    out.push(((v / 256) % 256) as u8);
    out.push(((v / 65536) % 256) as u8);
    out.push((v / 16777216) as u8);
    assert(out@ =~= old(out)@ + u32_le(v));
}

/// The `u32` at `p`, when four bytes are there.
fn read_u32(b: &[u8], p: usize) -> (r: Option<u32>)
    ensures
        match r {
            Some(v) => p + 4 <= b@.len() && v == u32_from(b@, p as int),
            None => p + 4 > b@.len(),
        },
{
    if p > b.len() || b.len() - p < 4 {
        return None;
    }
    let v: u32 = b[p] as u32 + b[p + 1] as u32 * 256 + b[p + 2] as u32 * 65536 + b[p + 3] as u32 * 16777216;
    Some(v)
}

/// The `u16` at `p`, when two bytes are there.
fn read_u16(b: &[u8], p: usize) -> (r: Option<u16>)
    ensures
        match r {
            Some(v) => p + 2 <= b@.len() && v == u16_from(b@, p as int),
            None => p + 2 > b@.len(),
        },
{
    if p > b.len() || b.len() - p < 2 {
        return None;
    }
    let v: u16 = b[p] as u16 + b[p + 1] as u16 * 256;
    Some(v)
}

// ---------------------------------------------------------------------------
// Condition kinds as stored flags
// ---------------------------------------------------------------------------

/// The stored type flag of a condition kind; kinds that are never stored have 0.
pub open spec fn tfs_flag(t: ConditionType) -> u32 {
    match t {
        ConditionType::NoCondition => 0,
        ConditionType::Poison => 0x1,
        ConditionType::Fire => 0x2,
        ConditionType::Energy => 0x4,
        ConditionType::Bleeding => 0x8,
        ConditionType::Haste => 0x10,
        ConditionType::Paralyze => 0x20,
        ConditionType::Outfit => 0x40,
        ConditionType::Invisible => 0x80,
        ConditionType::Light => 0x100,
        ConditionType::ManaShield => 0x200,
        ConditionType::Infight => 0x400,
        ConditionType::Drunk => 0x800,
        ConditionType::ExhaustWeapon => 0x1000,
        ConditionType::Regeneration => 0x2000,
        ConditionType::Muted => 0x4000,
        ConditionType::ChannelMutedTicks => 0x8000,
        ConditionType::YellTicks => 0x1_0000,
        ConditionType::Attributes => 0x2_0000,
        ConditionType::Freezing => 0x10_0000,
        ConditionType::Dazzled => 0x20_0000,
        ConditionType::Cursed => 0x40_0000,
        ConditionType::ExhaustCombat => 0x80_0000,
        ConditionType::ExhaustHeal => 0x100_0000,
        ConditionType::ExhaustGroup => 0,
        ConditionType::Pz => 0,
    }
}

/// The condition kind a stored type flag names: the kind whose `tfs_flag` it is,
/// `NoCondition` for any other value.
pub open spec fn type_of_flag(f: u32) -> ConditionType {
    if f == 0x1 { ConditionType::Poison }
    else if f == 0x2 { ConditionType::Fire }
    else if f == 0x4 { ConditionType::Energy }
    else if f == 0x8 { ConditionType::Bleeding }
    else if f == 0x10 { ConditionType::Haste }
    else if f == 0x20 { ConditionType::Paralyze }
    else if f == 0x40 { ConditionType::Outfit }
    else if f == 0x80 { ConditionType::Invisible }
    else if f == 0x100 { ConditionType::Light }
    else if f == 0x200 { ConditionType::ManaShield }
    else if f == 0x400 { ConditionType::Infight }
    else if f == 0x800 { ConditionType::Drunk }
    else if f == 0x1000 { ConditionType::ExhaustWeapon }
    else if f == 0x2000 { ConditionType::Regeneration }
    else if f == 0x4000 { ConditionType::Muted }
    else if f == 0x8000 { ConditionType::ChannelMutedTicks }
    else if f == 0x1_0000 { ConditionType::YellTicks }
    else if f == 0x2_0000 { ConditionType::Attributes }
    else if f == 0x10_0000 { ConditionType::Freezing }
    else if f == 0x20_0000 { ConditionType::Dazzled }
    else if f == 0x40_0000 { ConditionType::Cursed }
    else if f == 0x80_0000 { ConditionType::ExhaustCombat }
    else if f == 0x100_0000 { ConditionType::ExhaustHeal }
    else { ConditionType::NoCondition }
}

fn condition_type_to_tfs_flag(t: ConditionType) -> (r: u32)
    ensures
        r == tfs_flag(t),
{
    match t {
        ConditionType::NoCondition => 0,
        ConditionType::Poison => 0x1,
        ConditionType::Fire => 0x2,
        ConditionType::Energy => 0x4,
        ConditionType::Bleeding => 0x8,
        ConditionType::Haste => 0x10,
        ConditionType::Paralyze => 0x20,
        ConditionType::Outfit => 0x40,
        ConditionType::Invisible => 0x80,
        ConditionType::Light => 0x100,
        ConditionType::ManaShield => 0x200,
        ConditionType::Infight => 0x400,
        ConditionType::Drunk => 0x800,
        ConditionType::ExhaustWeapon => 0x1000,
        ConditionType::Regeneration => 0x2000,
        ConditionType::Muted => 0x4000,
        ConditionType::ChannelMutedTicks => 0x8000,
        ConditionType::YellTicks => 0x1_0000,
        ConditionType::Attributes => 0x2_0000,
        ConditionType::Freezing => 0x10_0000,
        ConditionType::Dazzled => 0x20_0000,
        ConditionType::Cursed => 0x40_0000,
        ConditionType::ExhaustCombat => 0x80_0000,
        ConditionType::ExhaustHeal => 0x100_0000,
        ConditionType::ExhaustGroup => 0,
        ConditionType::Pz => 0,
    }
}

fn condition_type_from_flag(f: u32) -> (r: ConditionType)
    ensures
        r == type_of_flag(f),
{
    if f == 0x1 { ConditionType::Poison }
    else if f == 0x2 { ConditionType::Fire }
    else if f == 0x4 { ConditionType::Energy }
    else if f == 0x8 { ConditionType::Bleeding }
    else if f == 0x10 { ConditionType::Haste }
    else if f == 0x20 { ConditionType::Paralyze }
    else if f == 0x40 { ConditionType::Outfit }
    else if f == 0x80 { ConditionType::Invisible }
    else if f == 0x100 { ConditionType::Light }
    else if f == 0x200 { ConditionType::ManaShield }
    else if f == 0x400 { ConditionType::Infight }
    else if f == 0x800 { ConditionType::Drunk }
    else if f == 0x1000 { ConditionType::ExhaustWeapon }
    else if f == 0x2000 { ConditionType::Regeneration }
    else if f == 0x4000 { ConditionType::Muted }
    else if f == 0x8000 { ConditionType::ChannelMutedTicks }
    else if f == 0x1_0000 { ConditionType::YellTicks }
    else if f == 0x2_0000 { ConditionType::Attributes }
    else if f == 0x10_0000 { ConditionType::Freezing }
    else if f == 0x20_0000 { ConditionType::Dazzled }
    else if f == 0x40_0000 { ConditionType::Cursed }
    else if f == 0x80_0000 { ConditionType::ExhaustCombat }
    else if f == 0x100_0000 { ConditionType::ExhaustHeal }
    else { ConditionType::NoCondition }
}

/// A condition kind written as its stored flag reads back as itself (kinds without a
/// flag read back as no condition).
pub proof fn lemma_flag_round_trip(t: ConditionType)
    ensures
        tfs_flag(t) != 0 ==> type_of_flag(tfs_flag(t)) == t,
        tfs_flag(t) == 0 ==> type_of_flag(tfs_flag(t)) == ConditionType::NoCondition,
{
}

// ---------------------------------------------------------------------------
// What gets saved
// ---------------------------------------------------------------------------

/// Milliseconds left on a condition: its events times 1000 (saturating, not below 0)
/// when timed, else the ticks of a generic payload (not below 0), or the longer
/// regeneration interval (as `i32`); 0 otherwise.
pub open spec fn remaining_ticks(c: ActiveCondition) -> i32 {
    match c.timer_rounds_left {
        Some(rounds) => {
            let t = rounds as int * 1000;
            if t > i32::MAX { i32::MAX } else if t < 0 { 0 } else { t as i32 }
        },
        None => match c.data {
            ConditionData::Generic { ticks } => if ticks < 0 { 0 } else { ticks },
            ConditionData::Regeneration { health_ticks_ms, mana_ticks_ms, .. } =>
                (if health_ticks_ms >= mana_ticks_ms { health_ticks_ms } else { mana_ticks_ms }) as i32,
            _ => 0,
        },
    }
}

fn remaining_ticks_ms(c: &ActiveCondition) -> (r: i32)
    ensures
        r == remaining_ticks(*c),
{
    match c.timer_rounds_left {
        Some(rounds) => {
            let t = rounds as i64 * 1000;
            if t > i32::MAX as i64 {
                i32::MAX
            } else if t < 0 {
                0
            } else {
                t as i32
            }
        },
        None => match c.data {
            ConditionData::Generic { ticks } => if ticks < 0 { 0 } else { ticks },
            ConditionData::Regeneration { health_ticks_ms, mana_ticks_ms, .. } =>
                (if health_ticks_ms >= mana_ticks_ms { health_ticks_ms } else { mana_ticks_ms }) as i32,
            _ => 0,
        },
    }
}

/// A condition is saved when time is left on it and its id is the default (`u32::MAX`)
/// or combat (0) id, or it is a mute.
pub open spec fn persistent(c: ActiveCondition) -> bool {
    remaining_ticks(c) > 0 && (c.id == 0 || c.id == u32::MAX || c.ctype == ConditionType::Muted)
}

fn is_persistent(c: &ActiveCondition) -> (r: bool)
    ensures
        r == persistent(*c),
{
    let ticks = remaining_ticks_ms(c);
    if ticks <= 0 {
        return false;
    }
    c.id == 0 || c.id == u32::MAX || c.ctype == ConditionType::Muted
}

/// The fixed header of a saved condition with `ticks` left.
pub open spec fn header_bytes(c: ActiveCondition, ticks: i32) -> Seq<u8> {
    seq![CONDITIONATTR_TYPE] + u32_le(tfs_flag(c.ctype))
        + seq![CONDITIONATTR_ID] + u32_le(c.id)
        + seq![CONDITIONATTR_TICKS] + u32_le((if ticks < 0 { 0 } else { ticks }) as u32)
        + seq![CONDITIONATTR_ISBUFF, 0u8, CONDITIONATTR_SUBID] + u32_le(c.sub_id)
        + seq![CONDITIONATTR_ISAGGRESSIVE, 0u8]
}

/// Four zero bytes: a stored formula factor of 0.0.
pub open spec fn zero_f32() -> Seq<u8> {
    seq![0u8, 0u8, 0u8, 0u8]
}

/// The payload attributes of a saved condition with `ticks` left.
pub open spec fn payload_bytes(c: ActiveCondition, ticks: i32) -> Seq<u8> {
    match c.data {
        ConditionData::Speed { flat_delta } => speed_attrs(flat_delta),
        ConditionData::Light { level, color } => light_attrs(level, color, ticks),
        ConditionData::Outfit { look_type, look_type_ex } => outfit_attrs(look_type, look_type_ex),
        ConditionData::Regeneration { health_gain, health_ticks_ms, mana_gain, mana_ticks_ms, .. } =>
            regen_attrs(health_gain, health_ticks_ms, mana_gain, mana_ticks_ms),
        _ => Seq::empty(),
    }
}

/// Speed change, then the four formula factors as 0.0.
pub open spec fn speed_attrs(flat_delta: i32) -> Seq<u8> {
    seq![CONDITIONATTR_SPEEDDELTA] + u32_le(flat_delta as u32)
        + seq![CONDITIONATTR_FORMULA_MINA] + zero_f32() + seq![CONDITIONATTR_FORMULA_MINB] + zero_f32()
        + seq![CONDITIONATTR_FORMULA_MAXA] + zero_f32() + seq![CONDITIONATTR_FORMULA_MAXB] + zero_f32()
}

/// Light color and level, the ticks left and a 1000 ms interval.
pub open spec fn light_attrs(level: u8, color: u8, ticks: i32) -> Seq<u8> {
    seq![CONDITIONATTR_LIGHTCOLOR] + u32_le(color as u32) + seq![CONDITIONATTR_LIGHTLEVEL] + u32_le(level as u32)
        + seq![CONDITIONATTR_LIGHTTICKS] + u32_le(ticks as u32) + seq![CONDITIONATTR_LIGHTINTERVAL] + u32_le(1000)
}

/// The outfit record: look type (clamped to `u16`), item look, mount 0, head, body,
/// legs, feet and addons 0, one byte of padding.
pub open spec fn outfit_attrs(look_type: i32, look_type_ex: u16) -> Seq<u8> {
    seq![CONDITIONATTR_OUTFIT] + u16_le(clamp_u16(look_type as int)) + u16_le(look_type_ex) + u16_le(0)
        + seq![0u8, 0u8, 0u8, 0u8, 0u8, 0u8]
}

/// Health interval and gain (not below 0), mana interval and gain (not below 0).
pub open spec fn regen_attrs(health_gain: i32, health_ticks_ms: u32, mana_gain: i32, mana_ticks_ms: u32) -> Seq<u8> {
    seq![CONDITIONATTR_HEALTHTICKS] + u32_le(health_ticks_ms)
        + seq![CONDITIONATTR_HEALTHGAIN] + u32_le((if health_gain < 0 { 0 } else { health_gain }) as u32)
        + seq![CONDITIONATTR_MANATICKS] + u32_le(mana_ticks_ms)
        + seq![CONDITIONATTR_MANAGAIN] + u32_le((if mana_gain < 0 { 0 } else { mana_gain }) as u32)
}

pub open spec fn clamp_u16(v: int) -> u16 {
    if v < 0 { 0 } else if v > 0xffff { 0xffff } else { v as u16 }
}

/// The record of one saved condition.
#[verifier::opaque]
pub open spec fn condition_bytes(c: ActiveCondition) -> Seq<u8> {
    header_bytes(c, remaining_ticks(c)) + payload_bytes(c, remaining_ticks(c)) + seq![CONDITIONATTR_END]
}

/// The blob of a condition list: the records of its persistent conditions, in order.
pub open spec fn conditions_bytes(cs: Seq<ActiveCondition>) -> Seq<u8>
    decreases cs.len(),
{
    if cs.len() == 0 {
        Seq::empty()
    } else {
        (if persistent(cs[0]) { condition_bytes(cs[0]) } else { Seq::empty() }) + conditions_bytes(cs.drop_first())
    }
}

proof fn lemma_conditions_bytes_push(cs: Seq<ActiveCondition>, c: ActiveCondition)
    ensures
        conditions_bytes(cs.push(c)) == conditions_bytes(cs) + (if persistent(c) { condition_bytes(c) } else { Seq::empty() }),
    decreases cs.len(),
{
    if cs.len() == 0 {
        let one = cs.push(c);
        assert(one.drop_first() =~= Seq::<ActiveCondition>::empty());
        assert(one[0] == c);
        assert(conditions_bytes(one.drop_first()) == Seq::<u8>::empty());
        let t: Seq<u8> = if persistent(c) { condition_bytes(c) } else { Seq::empty() };
        assert(t + Seq::<u8>::empty() =~= t);
        assert(conditions_bytes(cs) == Seq::<u8>::empty());
        assert(Seq::<u8>::empty() + t =~= t);
    } else {
        lemma_conditions_bytes_push(cs.drop_first(), c);
        assert(cs.push(c).drop_first() =~= cs.drop_first().push(c));
        assert(cs.push(c)[0] == cs[0]);
        let h: Seq<u8> = if persistent(cs[0]) { condition_bytes(cs[0]) } else { Seq::empty() };
        let t: Seq<u8> = if persistent(c) { condition_bytes(c) } else { Seq::empty() };
        assert(h + (conditions_bytes(cs.drop_first()) + t) =~= (h + conditions_bytes(cs.drop_first())) + t);
    }
}

fn write_header(out: &mut Vec<u8>, c: &ActiveCondition, ticks: i32)
    ensures
        final(out)@ == old(out)@ + header_bytes(*c, ticks),
{
    let ghost o = out@;
    write_u8(out, CONDITIONATTR_TYPE);
    write_u32(out, condition_type_to_tfs_flag(c.ctype));
    write_u8(out, CONDITIONATTR_ID);
    write_u32(out, c.id);
    write_u8(out, CONDITIONATTR_TICKS);
    write_u32(out, (if ticks < 0 { 0 } else { ticks }) as u32);
    write_u8(out, CONDITIONATTR_ISBUFF);
    write_u8(out, 0);
    write_u8(out, CONDITIONATTR_SUBID);
    write_u32(out, c.sub_id);
    write_u8(out, CONDITIONATTR_ISAGGRESSIVE);
    write_u8(out, 0);
    assert(out@ =~= o + header_bytes(*c, ticks));
}

fn write_speed(out: &mut Vec<u8>, flat_delta: i32)
    ensures
        final(out)@ == old(out)@ + speed_attrs(flat_delta),
{
    let ghost o = out@;
    write_u8(out, CONDITIONATTR_SPEEDDELTA);
    write_u32(out, flat_delta as u32);
    write_u8(out, CONDITIONATTR_FORMULA_MINA);
    write_u32(out, 0);
    write_u8(out, CONDITIONATTR_FORMULA_MINB);
    write_u32(out, 0);
    write_u8(out, CONDITIONATTR_FORMULA_MAXA);
    write_u32(out, 0);
    write_u8(out, CONDITIONATTR_FORMULA_MAXB);
    write_u32(out, 0);
    assert(u32_le(0) =~= zero_f32());
    assert(out@ =~= o + speed_attrs(flat_delta));
}

fn write_light(out: &mut Vec<u8>, level: u8, color: u8, ticks: i32)
    ensures
        final(out)@ == old(out)@ + light_attrs(level, color, ticks),
{
    let ghost o = out@;
    write_u8(out, CONDITIONATTR_LIGHTCOLOR);
    write_u32(out, color as u32);
    write_u8(out, CONDITIONATTR_LIGHTLEVEL);
    write_u32(out, level as u32);
    write_u8(out, CONDITIONATTR_LIGHTTICKS);
    write_u32(out, ticks as u32);
    write_u8(out, CONDITIONATTR_LIGHTINTERVAL);
    write_u32(out, 1000);
    assert(out@ =~= o + light_attrs(level, color, ticks));
}

fn write_outfit(out: &mut Vec<u8>, look_type: i32, look_type_ex: u16)
    ensures
        final(out)@ == old(out)@ + outfit_attrs(look_type, look_type_ex),
{
    let ghost o = out@;
    write_u8(out, CONDITIONATTR_OUTFIT);
    let lt: u16 = if look_type < 0 { 0 } else if look_type > 0xffff { 0xffff } else { look_type as u16 };
    write_u16(out, lt);
    write_u16(out, look_type_ex);
    write_u16(out, 0);
    write_u8(out, 0);
    write_u8(out, 0);
    write_u8(out, 0);
    write_u8(out, 0);
    write_u8(out, 0);
    write_u8(out, 0);
    assert(out@ =~= o + outfit_attrs(look_type, look_type_ex));
}

fn write_regen(out: &mut Vec<u8>, health_gain: i32, health_ticks_ms: u32, mana_gain: i32, mana_ticks_ms: u32)
    ensures
        final(out)@ == old(out)@ + regen_attrs(health_gain, health_ticks_ms, mana_gain, mana_ticks_ms),
{
    let ghost o = out@;
    write_u8(out, CONDITIONATTR_HEALTHTICKS);
    write_u32(out, health_ticks_ms);
    write_u8(out, CONDITIONATTR_HEALTHGAIN);
    write_u32(out, (if health_gain < 0 { 0 } else { health_gain }) as u32);
    write_u8(out, CONDITIONATTR_MANATICKS);
    write_u32(out, mana_ticks_ms);
    write_u8(out, CONDITIONATTR_MANAGAIN);
    write_u32(out, (if mana_gain < 0 { 0 } else { mana_gain }) as u32);
    assert(out@ =~= o + regen_attrs(health_gain, health_ticks_ms, mana_gain, mana_ticks_ms));
}

fn write_payload(out: &mut Vec<u8>, c: &ActiveCondition, ticks: i32)
    ensures
        final(out)@ == old(out)@ + payload_bytes(*c, ticks),
{
    let ghost o = out@;
    match c.data {
        ConditionData::Speed { flat_delta } => write_speed(out, flat_delta),
        ConditionData::Light { level, color } => write_light(out, level, color, ticks),
        ConditionData::Outfit { look_type, look_type_ex } => write_outfit(out, look_type, look_type_ex),
        ConditionData::Regeneration { health_gain, health_ticks_ms, mana_gain, mana_ticks_ms, .. } =>
            write_regen(out, health_gain, health_ticks_ms, mana_gain, mana_ticks_ms),
        _ => {
            assert(out@ =~= o + payload_bytes(*c, ticks));
        },
    }
}

fn write_one(out: &mut Vec<u8>, c: &ActiveCondition)
    ensures
        final(out)@ == old(out)@ + condition_bytes(*c),
{
    let ghost o = out@;
    let ticks = remaining_ticks_ms(c);
    write_header(out, c, ticks);
    write_payload(out, c, ticks);
    write_u8(out, CONDITIONATTR_END);
    proof {
        reveal(condition_bytes);
    }
    assert(out@ =~= o + condition_bytes(*c));
}

/// The blob of the persistent conditions of `conds` (see `conditions_bytes`).
pub fn serialize_conditions(conds: &[ActiveCondition]) -> (r: Vec<u8>)
    ensures
        r@ == conditions_bytes(conds@),
{
    let mut out: Vec<u8> = Vec::new();
    let mut i: usize = 0;
    while i < conds.len()
        invariant
            i <= conds@.len(),
            out@ == conditions_bytes(conds@.subrange(0, i as int)),
        decreases conds@.len() - i,
    {
        proof {
            assert(conds@.subrange(0, i + 1) =~= conds@.subrange(0, i as int).push(conds@[i as int]));
            lemma_conditions_bytes_push(conds@.subrange(0, i as int), conds@[i as int]);
        }
        if is_persistent(&conds[i]) {
            write_one(&mut out, &conds[i]);
        }
        i = i + 1;
    }
    proof {
        assert(conds@.subrange(0, i as int) =~= conds@);
    }
    out
}

// ---------------------------------------------------------------------------
// Loading
// ---------------------------------------------------------------------------

/// A condition being read back: the header fields and whatever payload attributes
/// have been seen.
#[derive(Debug, Clone, Copy, PartialEq, Eq, Structural)]
pub struct PartialCond {
    pub ctype: ConditionType,
    pub id: u32,
    pub ticks: i32,
    pub sub_id: u32,
    pub speed_delta: Option<i32>,
    pub light_level: Option<u8>,
    pub light_color: Option<u8>,
    pub look_type: Option<i32>,
    pub look_type_ex: Option<u16>,
    pub health_gain: Option<i32>,
    pub health_ticks_ms: Option<u32>,
    pub mana_gain: Option<i32>,
    pub mana_ticks_ms: Option<u32>,
}

/// The condition a record begins with, when `b` starts with a complete header.
pub open spec fn header_of(b: Seq<u8>) -> Option<PartialCond> {
    if b.len() >= 24 && b[0] == CONDITIONATTR_TYPE && b[5] == CONDITIONATTR_ID && b[10] == CONDITIONATTR_TICKS
        && b[15] == CONDITIONATTR_ISBUFF && b[17] == CONDITIONATTR_SUBID && b[22] == CONDITIONATTR_ISAGGRESSIVE {
        Some(PartialCond {
            ctype: type_of_flag(u32_from(b, 1)),
            id: u32_from(b, 6),
            ticks: u32_from(b, 11) as i32,
            sub_id: u32_from(b, 18),
            speed_delta: None,
            light_level: None,
            light_color: None,
            look_type: None,
            look_type_ex: None,
            health_gain: None,
            health_ticks_ms: None,
            mana_gain: None,
            mana_ticks_ms: None,
        })
    } else {
        None
    }
}

/// Attributes that carry a 4-byte value the loader keeps.
pub open spec fn is_value_attr(a: u8) -> bool {
    a == CONDITIONATTR_TYPE || a == CONDITIONATTR_ID || a == CONDITIONATTR_TICKS || a == CONDITIONATTR_SUBID
        || a == CONDITIONATTR_SPEEDDELTA || a == CONDITIONATTR_LIGHTCOLOR || a == CONDITIONATTR_LIGHTLEVEL
        || a == CONDITIONATTR_HEALTHTICKS || a == CONDITIONATTR_HEALTHGAIN || a == CONDITIONATTR_MANATICKS
        || a == CONDITIONATTR_MANAGAIN
}

/// Attributes with a 4-byte value the loader skips.
pub open spec fn is_skipped_word(a: u8) -> bool {
    a == CONDITIONATTR_FORMULA_MINA || a == CONDITIONATTR_FORMULA_MINB || a == CONDITIONATTR_FORMULA_MAXA
        || a == CONDITIONATTR_FORMULA_MAXB || a == CONDITIONATTR_LIGHTTICKS || a == CONDITIONATTR_LIGHTINTERVAL
}

pub open spec fn clamp_u8(v: int) -> u8 {
    if v < 0 { 0 } else if v > 255 { 255 } else { v as u8 }
}

/// `pc` with value attribute `a` read as `v`.
pub open spec fn with_attr(pc: PartialCond, a: u8, v: u32) -> PartialCond {
    if a == CONDITIONATTR_TYPE {
        PartialCond { ctype: type_of_flag(v), ..pc }
    } else if a == CONDITIONATTR_ID {
        PartialCond { id: v, ..pc }
    } else if a == CONDITIONATTR_TICKS {
        PartialCond { ticks: v as i32, ..pc }
    } else if a == CONDITIONATTR_SUBID {
        PartialCond { sub_id: v, ..pc }
    } else if a == CONDITIONATTR_SPEEDDELTA {
        PartialCond { speed_delta: Some(v as i32), ..pc }
    } else if a == CONDITIONATTR_LIGHTCOLOR {
        PartialCond { light_color: Some(clamp_u8((v as i32) as int)), ..pc }
    } else if a == CONDITIONATTR_LIGHTLEVEL {
        PartialCond { light_level: Some(clamp_u8((v as i32) as int)), ..pc }
    } else if a == CONDITIONATTR_HEALTHTICKS {
        PartialCond { health_ticks_ms: Some(v), ..pc }
    } else if a == CONDITIONATTR_HEALTHGAIN {
        PartialCond { health_gain: Some(v as i32), ..pc }
    } else if a == CONDITIONATTR_MANATICKS {
        PartialCond { mana_ticks_ms: Some(v), ..pc }
    } else {
        PartialCond { mana_gain: Some(v as i32), ..pc }
    }
}

/// Reads the attributes of a record from `b` into `pc`, up to the end marker; stops
/// early (leaving the rest unread) at a value cut short by the end of `b`, and just
/// after an unknown attribute. Gives the condition and the bytes after it.
pub open spec fn attrs(b: Seq<u8>, pc: PartialCond) -> (PartialCond, Seq<u8>)
    decreases b.len(),
{
    if b.len() == 0 {
        (pc, b)
    } else {
        let a = b[0];
        let r = b.subrange(1, b.len() as int);
        if a == CONDITIONATTR_END {
            (pc, r)
        } else if is_value_attr(a) {
            if r.len() >= 4 { attrs(r.subrange(4, r.len() as int), with_attr(pc, a, u32_from(r, 0))) } else { (pc, r) }
        } else if a == CONDITIONATTR_ISBUFF || a == CONDITIONATTR_ISAGGRESSIVE {
            if r.len() >= 1 { attrs(r.subrange(1, r.len() as int), pc) } else { (pc, r) }
        } else if is_skipped_word(a) {
            if r.len() >= 4 { attrs(r.subrange(4, r.len() as int), pc) } else { (pc, r) }
        } else if a == CONDITIONATTR_OUTFIT {
            if r.len() >= 4 {
                // Look type and item look, then the mount (when two bytes are left) and up
                // to six bytes of colors, addons and padding.
                let lt = u16_from(r, 0);
                let ltx = u16_from(r, 2);
                let r3 = r.subrange(4, r.len() as int);
                let r4 = if r3.len() >= 2 { r3.subrange(2, r3.len() as int) } else { r3 };
                let r5 = r4.subrange(if r4.len() >= 6 { 6 } else { r4.len() as int }, r4.len() as int);
                attrs(r5, PartialCond { look_type: Some(lt as i32), look_type_ex: Some(ltx), ..pc })
            } else if r.len() >= 2 {
                (pc, r.subrange(2, r.len() as int))
            } else {
                (pc, r)
            }
        } else {
            (pc, r)
        }
    }
}

pub proof fn lemma_attrs_shorter(b: Seq<u8>, pc: PartialCond)
    ensures
        attrs(b, pc).1.len() <= b.len(),
    decreases b.len(),
{
    if b.len() > 0 {
        let a = b[0];
        let r = b.subrange(1, b.len() as int);
        if a == CONDITIONATTR_END {
        } else if is_value_attr(a) {
            if r.len() >= 4 {
                lemma_attrs_shorter(r.subrange(4, r.len() as int), with_attr(pc, a, u32_from(r, 0)));
            }
        } else if a == CONDITIONATTR_ISBUFF || a == CONDITIONATTR_ISAGGRESSIVE {
            if r.len() >= 1 {
                lemma_attrs_shorter(r.subrange(1, r.len() as int), pc);
            }
        } else if is_skipped_word(a) {
            if r.len() >= 4 {
                lemma_attrs_shorter(r.subrange(4, r.len() as int), pc);
            }
        } else if a == CONDITIONATTR_OUTFIT {
            if r.len() >= 4 {
                let lt = u16_from(r, 0);
                let ltx = u16_from(r, 2);
                let r3 = r.subrange(4, r.len() as int);
                let r4 = if r3.len() >= 2 { r3.subrange(2, r3.len() as int) } else { r3 };
                let r5 = r4.subrange(if r4.len() >= 6 { 6 } else { r4.len() as int }, r4.len() as int);
                lemma_attrs_shorter(r5, PartialCond { look_type: Some(lt as i32), look_type_ex: Some(ltx), ..pc });
            }
        }
    }
}

/// The condition made of a read record: none for an unknown kind or no time left;
/// else with events `ceil(ticks / 1000)` and a payload by kind (speed for haste and
/// paralysis, light, outfit, regeneration; generic ticks for the others), missing
/// attributes as 0.
pub open spec fn activate(pc: PartialCond) -> Option<ActiveCondition> {
    if pc.ctype == ConditionType::NoCondition || pc.ticks <= 0 {
        None
    } else {
        let data = match pc.ctype {
            ConditionType::Haste | ConditionType::Paralyze => ConditionData::Speed {
                flat_delta: or_zero_i32(pc.speed_delta),
            },
            ConditionType::Light => ConditionData::Light {
                level: or_zero_u8(pc.light_level),
                color: or_zero_u8(pc.light_color),
            },
            ConditionType::Outfit => ConditionData::Outfit {
                look_type: or_zero_i32(pc.look_type),
                look_type_ex: match pc.look_type_ex { Some(v) => v, None => 0 },
            },
            ConditionType::Regeneration => ConditionData::Regeneration {
                health_gain: or_zero_i32(pc.health_gain),
                health_ticks_ms: or_zero_u32(pc.health_ticks_ms),
                mana_gain: or_zero_i32(pc.mana_gain),
                mana_ticks_ms: or_zero_u32(pc.mana_ticks_ms),
                health_elapsed_ms: 0,
                mana_elapsed_ms: 0,
            },
            _ => ConditionData::Generic { ticks: pc.ticks },
        };
        Some(ActiveCondition {
            id: pc.id,
            sub_id: pc.sub_id,
            ctype: pc.ctype,
            data,
            timer_rounds_left: Some(((pc.ticks + 999) / 1000) as i32),
            skill_count: 0,
            skill_max_count: 0,
        })
    }
}

pub open spec fn or_zero_i32(v: Option<i32>) -> i32 {
    match v { Some(x) => x, None => 0 }
}

pub open spec fn or_zero_u8(v: Option<u8>) -> u8 {
    match v { Some(x) => x, None => 0 }
}

pub open spec fn or_zero_u32(v: Option<u32>) -> u32 {
    match v { Some(x) => x, None => 0 }
}

/// The conditions a blob loads: records one after another until a header does not
/// read; each record that makes a condition (see `activate`) adds it.
pub open spec fn decode(b: Seq<u8>) -> Seq<ActiveCondition>
    decreases b.len(),
{
    match header_of(b) {
        None => Seq::empty(),
        Some(pc) => {
            let (pc2, rest) = attrs(b.subrange(24, b.len() as int), pc);
            proof {
                lemma_attrs_shorter(b.subrange(24, b.len() as int), pc);
            }
            (match activate(pc2) { Some(c) => seq![c], None => Seq::empty() }) + decode(rest)
        },
    }
}

/// Loading the blob does not overflow: no record that makes a condition has ticks
/// within 999 of `i32::MAX`.
pub open spec fn decode_fits(b: Seq<u8>) -> bool
    decreases b.len(),
{
    match header_of(b) {
        None => true,
        Some(pc) => {
            let (pc2, rest) = attrs(b.subrange(24, b.len() as int), pc);
            proof {
                lemma_attrs_shorter(b.subrange(24, b.len() as int), pc);
            }
            (pc2.ctype == ConditionType::NoCondition || pc2.ticks <= 0 || pc2.ticks <= i32::MAX - 999)
                && decode_fits(rest)
        },
    }
}

fn read_u8(b: &[u8], p: usize) -> (r: Option<u8>)
    ensures
        match r {
            Some(v) => p < b@.len() && v == b@[p as int],
            None => p >= b@.len(),
        },
{
    if p < b.len() { Some(b[p]) } else { None }
}

/// The header at `p` (see `header_of`).
fn read_header(b: &[u8], p: usize) -> (r: Option<PartialCond>)
    requires
        p <= b@.len(),
    ensures
        r == header_of(b@.subrange(p as int, b@.len() as int)),
{
    let ghost t = b@.subrange(p as int, b@.len() as int);
    if b.len() - p < 24 {
        return None;
    }
    if b[p] != CONDITIONATTR_TYPE || b[p + 5] != CONDITIONATTR_ID || b[p + 10] != CONDITIONATTR_TICKS
        || b[p + 15] != CONDITIONATTR_ISBUFF || b[p + 17] != CONDITIONATTR_SUBID || b[p + 22] != CONDITIONATTR_ISAGGRESSIVE {
        return None;
    }
    let flag = match read_u32(b, p + 1) { Some(v) => v, None => return None };
    let id = match read_u32(b, p + 6) { Some(v) => v, None => return None };
    let ticks_u = match read_u32(b, p + 11) { Some(v) => v, None => return None };
    let sub_id = match read_u32(b, p + 18) { Some(v) => v, None => return None };
    assert(u32_from(t, 1) == flag && u32_from(t, 6) == id && u32_from(t, 11) == ticks_u && u32_from(t, 18) == sub_id);
    Some(PartialCond {
        ctype: condition_type_from_flag(flag),
        id,
        ticks: ticks_u as i32,
        sub_id,
        speed_delta: None,
        light_level: None,
        light_color: None,
        look_type: None,
        look_type_ex: None,
        health_gain: None,
        health_ticks_ms: None,
        mana_gain: None,
        mana_ticks_ms: None,
    })
}

fn clamp_to_u8(v: i32) -> (r: u8)
    ensures
        r == clamp_u8(v as int),
{
    if v < 0 { 0 } else if v > 255 { 255 } else { v as u8 }
}

fn apply_attr(pc: PartialCond, a: u8, v: u32) -> (r: PartialCond)
    ensures
        r == with_attr(pc, a, v),
{
    let mut r = pc;
    if a == CONDITIONATTR_TYPE {
        r.ctype = condition_type_from_flag(v);
    } else if a == CONDITIONATTR_ID {
        r.id = v;
    } else if a == CONDITIONATTR_TICKS {
        r.ticks = v as i32;
    } else if a == CONDITIONATTR_SUBID {
        r.sub_id = v;
    } else if a == CONDITIONATTR_SPEEDDELTA {
        r.speed_delta = Some(v as i32);
    } else if a == CONDITIONATTR_LIGHTCOLOR {
        r.light_color = Some(clamp_to_u8(v as i32));
    } else if a == CONDITIONATTR_LIGHTLEVEL {
        r.light_level = Some(clamp_to_u8(v as i32));
    } else if a == CONDITIONATTR_HEALTHTICKS {
        r.health_ticks_ms = Some(v);
    } else if a == CONDITIONATTR_HEALTHGAIN {
        r.health_gain = Some(v as i32);
    } else if a == CONDITIONATTR_MANATICKS {
        r.mana_ticks_ms = Some(v);
    } else {
        r.mana_gain = Some(v as i32);
    }
    r
}

/// Reads the attributes from `p` (see `attrs`); gives the condition and where the
/// next record starts.
fn read_attrs(b: &[u8], p: usize, pc: PartialCond) -> (r: (PartialCond, usize))
    requires
        p <= b@.len(),
    ensures
        p <= r.1 <= b@.len(),
        attrs(b@.subrange(p as int, b@.len() as int), pc) == (r.0, b@.subrange(r.1 as int, b@.len() as int)),
{
    let n = b.len();
    let mut q = p;
    let mut cur = pc;
    loop
        invariant
            n == b@.len(),
            p <= q <= n,
            attrs(b@.subrange(p as int, n as int), pc) == attrs(b@.subrange(q as int, n as int), cur),
        decreases n - q,
    {
        let ghost t = b@.subrange(q as int, n as int);
        if q >= n {
            return (cur, q);
        }
        let a = b[q];
        let ghost r = t.subrange(1, t.len() as int);
        proof {
            assert(t[0] == a);
            assert(r =~= b@.subrange(q + 1, n as int));
        }
        q = q + 1;
        if a == CONDITIONATTR_END {
            return (cur, q);
        } else if a == CONDITIONATTR_TYPE || a == CONDITIONATTR_ID || a == CONDITIONATTR_TICKS || a == CONDITIONATTR_SUBID
            || a == CONDITIONATTR_SPEEDDELTA || a == CONDITIONATTR_LIGHTCOLOR || a == CONDITIONATTR_LIGHTLEVEL
            || a == CONDITIONATTR_HEALTHTICKS || a == CONDITIONATTR_HEALTHGAIN || a == CONDITIONATTR_MANATICKS
            || a == CONDITIONATTR_MANAGAIN {
            match read_u32(b, q) {
                Some(v) => {
                    proof {
                        assert(u32_from(r, 0) == v);
                        assert(r.subrange(4, r.len() as int) =~= b@.subrange(q + 4, n as int));
                    }
                    cur = apply_attr(cur, a, v);
                    q = q + 4;
                },
                None => return (cur, q),
            }
        } else if a == CONDITIONATTR_ISBUFF || a == CONDITIONATTR_ISAGGRESSIVE {
            if q < n {
                proof {
                    assert(r.subrange(1, r.len() as int) =~= b@.subrange(q + 1, n as int));
                }
                q = q + 1;
            } else {
                return (cur, q);
            }
        } else if a == CONDITIONATTR_FORMULA_MINA || a == CONDITIONATTR_FORMULA_MINB || a == CONDITIONATTR_FORMULA_MAXA
            || a == CONDITIONATTR_FORMULA_MAXB || a == CONDITIONATTR_LIGHTTICKS || a == CONDITIONATTR_LIGHTINTERVAL {
            if n - q >= 4 {
                proof {
                    assert(r.subrange(4, r.len() as int) =~= b@.subrange(q + 4, n as int));
                }
                q = q + 4;
            } else {
                return (cur, q);
            }
        } else if a == CONDITIONATTR_OUTFIT {
            let look_type = match read_u16(b, q) {
                Some(v) => v,
                None => return (cur, q),
            };
            let look_type_ex = match read_u16(b, q + 2) {
                Some(v) => v,
                None => {
                    proof {
                        assert(r.subrange(2, r.len() as int) =~= b@.subrange(q + 2, n as int));
                    }
                    return (cur, q + 2);
                },
            };
            proof {
                assert(u16_from(r, 0) == look_type);
                assert(u16_from(r, 2) == look_type_ex);
            }
            let ghost r3 = r.subrange(4, r.len() as int);
            q = q + 4;
            proof {
                assert(r3 =~= b@.subrange(q as int, n as int));
            }
            let ghost r4 = if r3.len() >= 2 { r3.subrange(2, r3.len() as int) } else { r3 };
            if n - q >= 2 {
                q = q + 2;
            }
            proof {
                assert(r4 =~= b@.subrange(q as int, n as int));
            }
            let skip = if n - q >= 6 { 6 } else { n - q };
            q = q + skip;
            proof {
                assert(r4.subrange(if r4.len() >= 6 { 6 } else { r4.len() as int }, r4.len() as int)
                    =~= b@.subrange(q as int, n as int));
            }
            cur.look_type = Some(look_type as i32);
            cur.look_type_ex = Some(look_type_ex);
        } else {
            return (cur, q);
        }
    }
}

/// The condition made of a read record (see `activate`).
fn into_active(pc: PartialCond) -> (r: Option<ActiveCondition>)
    requires
        pc.ctype == ConditionType::NoCondition || pc.ticks <= 0 || pc.ticks <= i32::MAX - 999,
    ensures
        r == activate(pc),
{
    if pc.ctype == ConditionType::NoCondition || pc.ticks <= 0 {
        return None;
    }
    let rounds = (pc.ticks + 999) / 1000;
    let data = match pc.ctype {
        ConditionType::Haste | ConditionType::Paralyze => ConditionData::Speed {
            flat_delta: match pc.speed_delta { Some(v) => v, None => 0 },
        },
        ConditionType::Light => ConditionData::Light {
            level: match pc.light_level { Some(v) => v, None => 0 },
            color: match pc.light_color { Some(v) => v, None => 0 },
        },
        ConditionType::Outfit => ConditionData::Outfit {
            look_type: match pc.look_type { Some(v) => v, None => 0 },
            look_type_ex: match pc.look_type_ex { Some(v) => v, None => 0 },
        },
        ConditionType::Regeneration => ConditionData::Regeneration {
            health_gain: match pc.health_gain { Some(v) => v, None => 0 },
            health_ticks_ms: match pc.health_ticks_ms { Some(v) => v, None => 0 },
            mana_gain: match pc.mana_gain { Some(v) => v, None => 0 },
            mana_ticks_ms: match pc.mana_ticks_ms { Some(v) => v, None => 0 },
            health_elapsed_ms: 0,
            mana_elapsed_ms: 0,
        },
        _ => ConditionData::Generic { ticks: pc.ticks },
    };
    Some(ActiveCondition {
        id: pc.id,
        sub_id: pc.sub_id,
        ctype: pc.ctype,
        data,
        timer_rounds_left: Some(rounds),
        skill_count: 0,
        skill_max_count: 0,
    })
}

/// The conditions stored in `blob` (see `decode`).
pub fn deserialize_conditions(blob: &[u8]) -> (r: Vec<ActiveCondition>)
    requires
        decode_fits(blob@),
    ensures
        r@ == decode(blob@),
{
    let n = blob.len();
    let mut out: Vec<ActiveCondition> = Vec::new();
    if n == 0 {
        return out;
    }
    let mut p: usize = 0;
    proof {
        assert(blob@.subrange(0, n as int) =~= blob@);
    }
    loop
        invariant
            n == blob@.len(),
            p <= n,
            out@ + decode(blob@.subrange(p as int, n as int)) == decode(blob@),
            decode_fits(blob@.subrange(p as int, n as int)),
        decreases n - p,
    {
        let ghost t = blob@.subrange(p as int, n as int);
        let pc = match read_header(blob, p) {
            Some(pc) => pc,
            None => {
                assert(out@ + Seq::<ActiveCondition>::empty() =~= out@);
                return out;
            },
        };
        proof {
            assert(t.subrange(24, t.len() as int) =~= blob@.subrange(p + 24, n as int));
        }
        let (pc2, next) = read_attrs(blob, p + 24, pc);
        let ghost got: Seq<ActiveCondition> = match activate(pc2) { Some(c) => seq![c], None => Seq::empty() };
        match into_active(pc2) {
            Some(c) => out.push(c),
            None => {},
        }
        proof {
            assert(decode(t) == got + decode(blob@.subrange(next as int, n as int)));
            assert(out@ + decode(blob@.subrange(next as int, n as int)) =~= (out@.subrange(0, out@.len() - got.len()) + got) + decode(blob@.subrange(next as int, n as int)));
        }
        p = next;
    }
}

// ---------------------------------------------------------------------------
// Saving then loading
// ---------------------------------------------------------------------------

/// What a saved condition reads back as, before it is made a condition: its kind (as
/// the stored flag names it), id, ticks left and sub id, and the payload fields the
/// record carries.
pub open spec fn partial_of(c: ActiveCondition) -> PartialCond {
    let base = PartialCond {
        ctype: type_of_flag(tfs_flag(c.ctype)),
        id: c.id,
        ticks: remaining_ticks(c),
        sub_id: c.sub_id,
        speed_delta: None,
        light_level: None,
        light_color: None,
        look_type: None,
        look_type_ex: None,
        health_gain: None,
        health_ticks_ms: None,
        mana_gain: None,
        mana_ticks_ms: None,
    };
    match c.data {
        ConditionData::Speed { flat_delta } => PartialCond { speed_delta: Some(flat_delta), ..base },
        ConditionData::Light { level, color } => PartialCond { light_level: Some(level), light_color: Some(color), ..base },
        ConditionData::Outfit { look_type, look_type_ex } =>
            PartialCond { look_type: Some(clamp_u16(look_type as int) as i32), look_type_ex: Some(look_type_ex), ..base },
        ConditionData::Regeneration { health_gain, health_ticks_ms, mana_gain, mana_ticks_ms, .. } => PartialCond {
            health_ticks_ms: Some(health_ticks_ms),
            health_gain: Some(if health_gain < 0 { 0 } else { health_gain }),
            mana_ticks_ms: Some(mana_ticks_ms),
            mana_gain: Some(if mana_gain < 0 { 0 } else { mana_gain }),
            ..base
        },
        _ => base,
    }
}

/// What loading the blob of `cs` gives: each persistent condition as `activate` makes
/// it from `partial_of`, in order.
pub open spec fn persisted(cs: Seq<ActiveCondition>) -> Seq<ActiveCondition>
    decreases cs.len(),
{
    if cs.len() == 0 {
        Seq::empty()
    } else {
        (if persistent(cs[0]) {
            match activate(partial_of(cs[0])) { Some(c) => seq![c], None => Seq::empty() }
        } else {
            Seq::empty()
        }) + persisted(cs.drop_first())
    }
}

proof fn lemma_u32_at(pre: Seq<u8>, v: u32, post: Seq<u8>)
    ensures
        u32_from(pre + u32_le(v) + post, pre.len() as int) == v,
{
    let b = pre + u32_le(v) + post;
    lemma_u32_le(v, post);
    let w = u32_le(v) + post;
    assert forall|k: int| 0 <= k < 4 implies b[pre.len() + k] == w[k] by {
        assert(b[pre.len() + k] == u32_le(v)[k]);
    }
}

proof fn lemma_attrs_value(a: u8, v: u32, tail: Seq<u8>, pc: PartialCond)
    requires
        is_value_attr(a),
    ensures
        attrs(seq![a] + u32_le(v) + tail, pc) == attrs(tail, with_attr(pc, a, v)),
{
    let b = seq![a] + u32_le(v) + tail;
    let r = b.subrange(1, b.len() as int);
    assert(r =~= u32_le(v) + tail);
    lemma_u32_le(v, tail);
    assert(b[0] == a);
}

proof fn lemma_attrs_word(a: u8, w: Seq<u8>, tail: Seq<u8>, pc: PartialCond)
    requires
        is_skipped_word(a),
        w.len() == 4,
    ensures
        attrs(seq![a] + w + tail, pc) == attrs(tail, pc),
{
    let b = seq![a] + w + tail;
    let r = b.subrange(1, b.len() as int);
    assert(r =~= w + tail);
    assert(r.subrange(4, r.len() as int) =~= tail);
    assert(b[0] == a);
}

proof fn lemma_attrs_end(tail: Seq<u8>, pc: PartialCond)
    ensures
        attrs(seq![CONDITIONATTR_END] + tail, pc) == (pc, tail),
{
    let b = seq![CONDITIONATTR_END] + tail;
    assert(b.subrange(1, b.len() as int) =~= tail);
    assert(b[0] == CONDITIONATTR_END);
}

proof fn lemma_attrs_speed(flat_delta: i32, pc: PartialCond, tail: Seq<u8>)
    ensures
        attrs(speed_attrs(flat_delta) + tail, pc) == attrs(tail, PartialCond { speed_delta: Some(flat_delta), ..pc }),
{
    let z = zero_f32();
    let t4 = seq![CONDITIONATTR_FORMULA_MAXB] + z + tail;
    let t3 = seq![CONDITIONATTR_FORMULA_MAXA] + z + t4;
    let t2 = seq![CONDITIONATTR_FORMULA_MINB] + z + t3;
    let t1 = seq![CONDITIONATTR_FORMULA_MINA] + z + t2;
    assert(speed_attrs(flat_delta) + tail =~= seq![CONDITIONATTR_SPEEDDELTA] + u32_le(flat_delta as u32) + t1);
    lemma_attrs_value(CONDITIONATTR_SPEEDDELTA, flat_delta as u32, t1, pc);
    let pc1 = with_attr(pc, CONDITIONATTR_SPEEDDELTA, flat_delta as u32);
    assert((flat_delta as u32) as i32 == flat_delta) by (bit_vector);
    lemma_attrs_word(CONDITIONATTR_FORMULA_MINA, z, t2, pc1);
    lemma_attrs_word(CONDITIONATTR_FORMULA_MINB, z, t3, pc1);
    lemma_attrs_word(CONDITIONATTR_FORMULA_MAXA, z, t4, pc1);
    lemma_attrs_word(CONDITIONATTR_FORMULA_MAXB, z, tail, pc1);
}

proof fn lemma_attrs_light(level: u8, color: u8, ticks: i32, pc: PartialCond, tail: Seq<u8>)
    ensures
        attrs(light_attrs(level, color, ticks) + tail, pc)
            == attrs(tail, PartialCond { light_level: Some(level), light_color: Some(color), ..pc }),
{
    let t3 = seq![CONDITIONATTR_LIGHTINTERVAL] + u32_le(1000) + tail;
    let t2 = seq![CONDITIONATTR_LIGHTTICKS] + u32_le(ticks as u32) + t3;
    let t1 = seq![CONDITIONATTR_LIGHTLEVEL] + u32_le(level as u32) + t2;
    assert(light_attrs(level, color, ticks) + tail =~= seq![CONDITIONATTR_LIGHTCOLOR] + u32_le(color as u32) + t1);
    lemma_attrs_value(CONDITIONATTR_LIGHTCOLOR, color as u32, t1, pc);
    let pc1 = with_attr(pc, CONDITIONATTR_LIGHTCOLOR, color as u32);
    assert(((color as u32) as i32) as int == color as int);
    lemma_attrs_value(CONDITIONATTR_LIGHTLEVEL, level as u32, t2, pc1);
    let pc2 = with_attr(pc1, CONDITIONATTR_LIGHTLEVEL, level as u32);
    assert(((level as u32) as i32) as int == level as int);
    lemma_attrs_word(CONDITIONATTR_LIGHTTICKS, u32_le(ticks as u32), t3, pc2);
    lemma_attrs_word(CONDITIONATTR_LIGHTINTERVAL, u32_le(1000), tail, pc2);
}

proof fn lemma_attrs_outfit(look_type: i32, look_type_ex: u16, pc: PartialCond, tail: Seq<u8>)
    ensures
        attrs(outfit_attrs(look_type, look_type_ex) + tail, pc) == attrs(tail,
            PartialCond { look_type: Some(clamp_u16(look_type as int) as i32), look_type_ex: Some(look_type_ex), ..pc }),
{
    let lt = clamp_u16(look_type as int);
    let zs = seq![0u8, 0u8, 0u8, 0u8, 0u8, 0u8];
    let b = outfit_attrs(look_type, look_type_ex) + tail;
    let r = b.subrange(1, b.len() as int);
    assert(b[0] == CONDITIONATTR_OUTFIT);
    let r2 = u16_le(look_type_ex) + (u16_le(0) + (zs + tail));
    assert(r =~= u16_le(lt) + r2);
    lemma_u16_le(lt, r2);
    lemma_u16_le(look_type_ex, u16_le(0) + (zs + tail));
    assert(r.subrange(2, r.len() as int) =~= r2);
    assert(u16_from(r, 2) == u16_from(r2, 0));
    let r3 = r.subrange(4, r.len() as int);
    assert(r3 =~= u16_le(0) + (zs + tail));
    let r4 = r3.subrange(2, r3.len() as int);
    assert(r4 =~= zs + tail);
    assert(r4.subrange(6, r4.len() as int) =~= tail);
}

proof fn lemma_attrs_regen(health_gain: i32, health_ticks_ms: u32, mana_gain: i32, mana_ticks_ms: u32, pc: PartialCond, tail: Seq<u8>)
    ensures
        attrs(regen_attrs(health_gain, health_ticks_ms, mana_gain, mana_ticks_ms) + tail, pc) == attrs(tail, PartialCond {
            health_ticks_ms: Some(health_ticks_ms),
            health_gain: Some(if health_gain < 0 { 0 } else { health_gain }),
            mana_ticks_ms: Some(mana_ticks_ms),
            mana_gain: Some(if mana_gain < 0 { 0 } else { mana_gain }),
            ..pc
        }),
{
    let hg: i32 = if health_gain < 0 { 0 } else { health_gain };
    let mg: i32 = if mana_gain < 0 { 0 } else { mana_gain };
    let t3 = seq![CONDITIONATTR_MANAGAIN] + u32_le(mg as u32) + tail;
    let t2 = seq![CONDITIONATTR_MANATICKS] + u32_le(mana_ticks_ms) + t3;
    let t1 = seq![CONDITIONATTR_HEALTHGAIN] + u32_le(hg as u32) + t2;
    assert(regen_attrs(health_gain, health_ticks_ms, mana_gain, mana_ticks_ms) + tail
        =~= seq![CONDITIONATTR_HEALTHTICKS] + u32_le(health_ticks_ms) + t1);
    lemma_attrs_value(CONDITIONATTR_HEALTHTICKS, health_ticks_ms, t1, pc);
    let pc1 = with_attr(pc, CONDITIONATTR_HEALTHTICKS, health_ticks_ms);
    lemma_attrs_value(CONDITIONATTR_HEALTHGAIN, hg as u32, t2, pc1);
    let pc2 = with_attr(pc1, CONDITIONATTR_HEALTHGAIN, hg as u32);
    assert((hg as u32) as i32 == hg);
    lemma_attrs_value(CONDITIONATTR_MANATICKS, mana_ticks_ms, t3, pc2);
    let pc3 = with_attr(pc2, CONDITIONATTR_MANATICKS, mana_ticks_ms);
    lemma_attrs_value(CONDITIONATTR_MANAGAIN, mg as u32, tail, pc3);
    assert((mg as u32) as i32 == mg);
}

/// The header fields of a saved condition, as they read back.
pub open spec fn header_partial(c: ActiveCondition) -> PartialCond {
    PartialCond {
        ctype: type_of_flag(tfs_flag(c.ctype)),
        id: c.id,
        ticks: remaining_ticks(c),
        sub_id: c.sub_id,
        speed_delta: None,
        light_level: None,
        light_color: None,
        look_type: None,
        look_type_ex: None,
        health_gain: None,
        health_ticks_ms: None,
        mana_gain: None,
        mana_ticks_ms: None,
    }
}

#[verifier::spinoff_prover]
proof fn lemma_record_header(c: ActiveCondition, rest: Seq<u8>)
    requires
        persistent(c),
    ensures
        ({
            let b = condition_bytes(c) + rest;
            &&& header_of(b) == Some(header_partial(c))
            &&& b.subrange(24, b.len() as int)
                == payload_bytes(c, remaining_ticks(c)) + (seq![CONDITIONATTR_END] + rest)
        }),
{
    reveal(condition_bytes);
    let t = remaining_ticks(c);
    let tu: u32 = (if t < 0 { 0 } else { t }) as u32;
    let flag = tfs_flag(c.ctype);
    let h = header_bytes(c, t);
    let tail = payload_bytes(c, t) + (seq![CONDITIONATTR_END] + rest);
    let b = condition_bytes(c) + rest;
    assert(b =~= h + tail);
    assert(h.len() == 24);
    let s1 = seq![CONDITIONATTR_TYPE];
    let s2 = seq![CONDITIONATTR_TYPE] + u32_le(flag) + seq![CONDITIONATTR_ID];
    let s3 = s2 + u32_le(c.id) + seq![CONDITIONATTR_TICKS];
    let s4 = s3 + u32_le(tu) + seq![CONDITIONATTR_ISBUFF, 0u8, CONDITIONATTR_SUBID];
    let e4 = seq![CONDITIONATTR_ISAGGRESSIVE, 0u8] + tail;
    assert(b =~= s4 + u32_le(c.sub_id) + e4);
    lemma_u32_at(s4, c.sub_id, e4);
    let e3 = seq![CONDITIONATTR_ISBUFF, 0u8, CONDITIONATTR_SUBID] + u32_le(c.sub_id) + e4;
    assert(b =~= s3 + u32_le(tu) + e3);
    lemma_u32_at(s3, tu, e3);
    let e2 = seq![CONDITIONATTR_TICKS] + u32_le(tu) + e3;
    assert(b =~= s2 + u32_le(c.id) + e2);
    lemma_u32_at(s2, c.id, e2);
    let e1 = seq![CONDITIONATTR_ID] + u32_le(c.id) + e2;
    assert(b =~= s1 + u32_le(flag) + e1);
    lemma_u32_at(s1, flag, e1);
    assert(b[0] == CONDITIONATTR_TYPE && b[5] == CONDITIONATTR_ID && b[10] == CONDITIONATTR_TICKS
        && b[15] == CONDITIONATTR_ISBUFF && b[17] == CONDITIONATTR_SUBID && b[22] == CONDITIONATTR_ISAGGRESSIVE);
    assert((tu as i32) == t);
    assert(b.subrange(24, b.len() as int) =~= tail);
}

/// A saved record reads back as `partial_of` its condition, and reading stops right
/// after it.
#[verifier::spinoff_prover]
proof fn lemma_record(c: ActiveCondition, rest: Seq<u8>)
    requires
        persistent(c),
    ensures
        ({
            let b = condition_bytes(c) + rest;
            &&& header_of(b) is Some
            &&& attrs(b.subrange(24, b.len() as int), header_of(b)->0) == (partial_of(c), rest)
        }),
{
    lemma_record_header(c, rest);
    let t = remaining_ticks(c);
    let pc = header_partial(c);
    let after = seq![CONDITIONATTR_END] + rest;
    match c.data {
        ConditionData::Speed { flat_delta } => lemma_attrs_speed(flat_delta, pc, after),
        ConditionData::Light { level, color } => lemma_attrs_light(level, color, t, pc, after),
        ConditionData::Outfit { look_type, look_type_ex } => lemma_attrs_outfit(look_type, look_type_ex, pc, after),
        ConditionData::Regeneration { health_gain, health_ticks_ms, mana_gain, mana_ticks_ms, .. } =>
            lemma_attrs_regen(health_gain, health_ticks_ms, mana_gain, mana_ticks_ms, pc, after),
        _ => {
            assert(payload_bytes(c, t) + after =~= after);
        },
    }
    lemma_attrs_end(rest, partial_of(c));
}

/// Saving a condition list and loading the blob gives each persistent condition back
/// as `partial_of` and `activate` make it, in order, provided no saved condition has
/// ticks within 999 of `i32::MAX` (where loading overflows).
pub proof fn lemma_conditions_round_trip(cs: Seq<ActiveCondition>)
    requires
        forall|i: int| 0 <= i < cs.len() && persistent(#[trigger] cs[i]) ==> remaining_ticks(cs[i]) <= i32::MAX - 999,
    ensures
        decode_fits(conditions_bytes(cs)),
        decode(conditions_bytes(cs)) == persisted(cs),
    decreases cs.len(),
{
    if cs.len() == 0 {
        assert(header_of(Seq::<u8>::empty()) is None);
    } else {
        let c = cs[0];
        let rest_cs = cs.drop_first();
        assert forall|i: int| 0 <= i < rest_cs.len() && persistent(#[trigger] rest_cs[i])
            implies remaining_ticks(rest_cs[i]) <= i32::MAX - 999 by {
            assert(rest_cs[i] == cs[i + 1]);
        }
        lemma_conditions_round_trip(rest_cs);
        let rest = conditions_bytes(rest_cs);
        if persistent(c) {
            lemma_record(c, rest);
            let b = condition_bytes(c) + rest;
            assert(conditions_bytes(cs) == b);
            assert(partial_of(c).ticks == remaining_ticks(c));
        } else {
            assert(conditions_bytes(cs) =~= rest);
            assert(persisted(cs) =~= persisted(rest_cs));
        }
    }
}

} // verus!
