//! Talk ranges, talk-flood and private-message muting, and the trade-channel
//! cooldown.
//!
//! A player who talks faster than the flood window allows, or who writes to
//! too many distinct players within the addressee window, is muted; every
//! muting lengthens the next one (`5 * n * n` seconds for the n-th muting).

use vstd::prelude::*;
use vstd::string::*;
use crate::ids::Position;
use crate::text::{decimal, u64_to_decimal};

verus! {

/// Trade channel id.
pub const CHANNEL_TRADE: u16 = 6;
pub const TALK_SAY_RANGE_X: u16 = 7;
pub const TALK_SAY_RANGE_Y: u16 = 5;
pub const TALK_YELL_RANGE: u16 = 30;
pub const TALK_WHISPER_CLEAR: u16 = 1;
pub const TRADE_CHANNEL_COOLDOWN_ROUNDS: u32 = 120;
pub const RECORD_TALK_WINDOW_MS: u64 = 2500;
pub const RECORD_TALK_OVERFLOW_MS: u64 = 7500;
pub const RECORD_MESSAGE_SLOTS: usize = 20;
pub const RECORD_MESSAGE_SLOT_AGE_ROUNDS: u32 = 600;

/// Per-player talk-flood, private-message and trade-offer bookkeeping.
#[derive(Debug, Clone)]
pub struct PlayerTalkGuard {
    /// Deadline (server milliseconds) until which the talk buffer counts as full.
    pub talk_buffer_full_time: u64,
    /// Number of mutings so far; shared by talk flood and message cap; never decreases.
    pub number_of_mutings: u32,
    /// Round until which the player is muted.
    pub muting_end_round: u32,
    /// First round in which the trade channel may be used again.
    pub earliest_trade_channel_round: u32,
    /// Recent private-message addressees (player guid; 0 = free slot).
    pub addressees: [u32; 20],
    /// Round of the last message to each addressee slot.
    pub addressees_times: [u32; 20],
}

impl PlayerTalkGuard {
    /// A guard with no history: nothing muted, all addressee slots free.
    pub fn new() -> (g: Self)
        ensures
            g.talk_buffer_full_time == 0,
            g.number_of_mutings == 0,
            g.muting_end_round == 0,
            g.earliest_trade_channel_round == 0,
            forall|i: int| 0 <= i < 20 ==> g.addressees@[i] == 0 && g.addressees_times@[i] == 0,
    {
        PlayerTalkGuard {
            talk_buffer_full_time: 0,
            number_of_mutings: 0,
            muting_end_round: 0,
            earliest_trade_channel_round: 0,
            addressees: [0u32; 20],
            addressees_times: [0u32; 20],
        }
    }
}

impl Default for PlayerTalkGuard {
    fn default() -> (g: Self)
        ensures
            g.talk_buffer_full_time == 0,
            g.number_of_mutings == 0,
            g.muting_end_round == 0,
            g.earliest_trade_channel_round == 0,
            forall|i: int| 0 <= i < 20 ==> g.addressees@[i] == 0 && g.addressees_times@[i] == 0,
    {
        PlayerTalkGuard::new()
    }
}

/// `a + b` clamped to `u32::MAX`.
pub open spec fn sat_add_u32(a: int, b: int) -> u32 {
    if a + b > u32::MAX { u32::MAX } else { (a + b) as u32 }
}

/// `a + b` clamped to `u64::MAX`.
pub open spec fn sat_add_u64(a: int, b: int) -> u64 {
    if a + b > u64::MAX { u64::MAX } else { (a + b) as u64 }
}

/// Absolute difference of two coordinates.
pub open spec fn spec_axis_distance(a: u16, b: u16) -> int {
    if a >= b { a - b } else { b - a }
}

/// Length of the n-th muting: `5 * n * n` seconds, clamped to `u32::MAX`.
pub open spec fn spec_mute_duration(n: u32) -> u32 {
    if 5 * (n as int) * (n as int) > u32::MAX { u32::MAX } else { (5 * n * n) as u32 }
}

pub fn axis_distance(a: u16, b: u16) -> (d: u16)
    ensures
        d == spec_axis_distance(a, b),
{
    if a >= b { a - b } else { b - a }
}

/// Say / whisper hearing box: `|dx| <= 7`, `|dy| <= 5`, same floor.
pub open spec fn in_say_box(speaker: Position, viewer: Position) -> bool {
    spec_axis_distance(speaker.x, viewer.x) <= 7 && spec_axis_distance(speaker.y, viewer.y) <= 5
        && speaker.z == viewer.z
}

/// Yell box: `|dx| <= 30`, `|dy| <= 30`; across floors only when both are on the surface
/// (z <= 7).
pub open spec fn in_yell_box(speaker: Position, viewer: Position) -> bool {
    spec_axis_distance(speaker.x, viewer.x) <= 30 && spec_axis_distance(speaker.y, viewer.y) <= 30
        && (speaker.z == viewer.z || (viewer.z <= 7 && speaker.z <= 7))
}

/// Clear whisper box: Chebyshev distance at most 1 on the same floor.
pub open spec fn in_whisper_box(speaker: Position, viewer: Position) -> bool {
    spec_axis_distance(speaker.x, viewer.x) <= 1 && spec_axis_distance(speaker.y, viewer.y) <= 1
        && speaker.z == viewer.z
}

/// Hearing goes both ways: a viewer in a speaker's say, yell or clear-whisper box has the
/// speaker in the same box of its own; and a clear whisper is within saying distance,
/// which is within yelling distance (`talk_whisper_clear`, `talk_in_say_range`,
/// `talk_in_yell_range`).
pub proof fn lemma_talk_ranges(a: Position, b: Position)
    ensures
        in_say_box(a, b) == in_say_box(b, a),
        in_yell_box(a, b) == in_yell_box(b, a),
        in_whisper_box(a, b) == in_whisper_box(b, a),
        in_whisper_box(a, b) ==> in_say_box(a, b),
        in_say_box(a, b) ==> in_yell_box(a, b),
{
}

pub fn talk_in_say_range(speaker: Position, viewer: Position) -> (r: bool)
    ensures
        r == in_say_box(speaker, viewer),
{
    axis_distance(speaker.x, viewer.x) <= TALK_SAY_RANGE_X && axis_distance(speaker.y, viewer.y)
        <= TALK_SAY_RANGE_Y && speaker.z == viewer.z
}

pub fn talk_in_yell_range(speaker: Position, viewer: Position) -> (r: bool)
    ensures
        r == in_yell_box(speaker, viewer),
{
    if axis_distance(speaker.x, viewer.x) > TALK_YELL_RANGE || axis_distance(speaker.y, viewer.y)
        > TALK_YELL_RANGE {
        return false;
    }
    let dz = if speaker.z >= viewer.z { speaker.z - viewer.z } else { viewer.z - speaker.z };
    if dz > 0 && (viewer.z > 7 || speaker.z > 7) {
        return false;
    }
    true
}

/// Whisper heard in clear text.
pub fn talk_whisper_clear(speaker: Position, viewer: Position) -> (r: bool)
    ensures
        r == in_whisper_box(speaker, viewer),
{
    axis_distance(speaker.x, viewer.x) <= TALK_WHISPER_CLEAR && axis_distance(speaker.y, viewer.y)
        <= TALK_WHISPER_CLEAR && speaker.z == viewer.z
}

/// Remaining mute seconds at `round_nr` (0 when not muted).
pub fn check_for_muting(guard: &PlayerTalkGuard, round_nr: u32) -> (r: u32)
    ensures
        r == (if guard.muting_end_round > round_nr { guard.muting_end_round - round_nr } else { 0 }),
{
    guard.muting_end_round.saturating_sub(round_nr)
}

pub fn mute_duration_seconds(number_of_mutings: u32) -> (r: u32)
    ensures
        r == spec_mute_duration(number_of_mutings),
{
    let n = number_of_mutings as u64;
    assert(n * n <= u64::MAX) by (nonlinear_arith)
        requires n <= u32::MAX;
    let sq = n * n;
    if sq > (u32::MAX as u64) {
        assert(5 * (n as int) * (n as int) > u32::MAX) by (nonlinear_arith)
            requires sq == n * n, sq > u32::MAX;
        u32::MAX
    } else {
        let five = sq * 5;
        if five > (u32::MAX as u64) {
            assert(5 * (n as int) * (n as int) > u32::MAX) by (nonlinear_arith)
                requires five == sq * 5, sq == n * n, five > u32::MAX;
            u32::MAX
        } else {
            assert(5 * (n as int) * (n as int) == five) by (nonlinear_arith)
                requires five == sq * 5, sq == n * n;
            five as u32
        }
    }
}

/// What one muting does to the guard: count it, and mute from `round_nr` on.
pub open spec fn spec_mute(g: PlayerTalkGuard, round_nr: u32) -> (PlayerTalkGuard, u32) {
    let n = sat_add_u32(g.number_of_mutings as int, 1);
    let m = spec_mute_duration(n);
    (PlayerTalkGuard { number_of_mutings: n, muting_end_round: sat_add_u32(round_nr as int, m as int), ..g }, m)
}

/// One say/yell/whisper against the talk buffer: the new guard and the mute seconds
/// this talk triggered (0 when the talk goes through).
pub open spec fn spec_record_talk(g: PlayerTalkGuard, server_ms: u64, round_nr: u32) -> (PlayerTalkGuard, u32) {
    if g.talk_buffer_full_time > server_ms {
        if g.talk_buffer_full_time > sat_add_u64(server_ms as int, RECORD_TALK_OVERFLOW_MS as int) {
            spec_mute(g, round_nr)
        } else {
            (PlayerTalkGuard {
                talk_buffer_full_time: sat_add_u64(g.talk_buffer_full_time as int, RECORD_TALK_WINDOW_MS as int),
                ..g
            }, 0)
        }
    } else {
        (PlayerTalkGuard { talk_buffer_full_time: sat_add_u64(server_ms as int, RECORD_TALK_WINDOW_MS as int), ..g }, 0)
    }
}

fn mute(guard: &mut PlayerTalkGuard, round_nr: u32) -> (r: u32)
    ensures
        (*final(guard), r) == spec_mute(*old(guard), round_nr),
{
    guard.number_of_mutings = guard.number_of_mutings.saturating_add(1);
    let muting = mute_duration_seconds(guard.number_of_mutings);
    guard.muting_end_round = round_nr.saturating_add(muting);
    muting
}

/// Records one talk; returns the mute seconds when this talk trips the flood mute
/// (that talk is then not broadcast), else 0.
pub fn record_talk(guard: &mut PlayerTalkGuard, server_ms: u64, round_nr: u32) -> (r: u32)
    ensures
        (*final(guard), r) == spec_record_talk(*old(guard), server_ms, round_nr),
{
    if guard.talk_buffer_full_time > server_ms {
        if guard.talk_buffer_full_time > server_ms.saturating_add(RECORD_TALK_OVERFLOW_MS) {
            mute(guard, round_nr)
        } else {
            guard.talk_buffer_full_time = guard.talk_buffer_full_time.saturating_add(
                RECORD_TALK_WINDOW_MS,
            );
            0
        }
    } else {
        guard.talk_buffer_full_time = server_ms.saturating_add(RECORD_TALK_WINDOW_MS);
        0
    }
}

/// Slot `i` may be taken by a new addressee: it is free, or its last message is
/// older than the slot age window.
pub open spec fn slot_reusable(g: PlayerTalkGuard, i: int, round_nr: u32) -> bool {
    g.addressees@[i] == 0 || round_nr > g.addressees_times@[i] + RECORD_MESSAGE_SLOT_AGE_ROUNDS
}

/// The addressee slot that a message to `id` uses: the first slot already holding
/// `id`; else the last reusable slot; `None` when all 20 slots hold other recent addressees.
pub open spec fn spec_addressee_slot(g: PlayerTalkGuard, id: u32, round_nr: u32) -> Option<int> {
    if exists|i: int| 0 <= i < 20 && g.addressees@[i] == id {
        Some(choose|i: int| 0 <= i < 20 && g.addressees@[i] == id && forall|j: int| 0 <= j < i ==> g.addressees@[j] != id)
    } else if exists|i: int| 0 <= i < 20 && slot_reusable(g, i, round_nr) {
        Some(choose|i: int| 0 <= i < 20 && slot_reusable(g, i, round_nr) && forall|j: int| i < j < 20 ==> !slot_reusable(g, j, round_nr))
    } else {
        None
    }
}

fn addressee_slot(g: &PlayerTalkGuard, addressee_id: u32, round_nr: u32) -> (r: Option<usize>)
    ensures
        match spec_addressee_slot(*g, addressee_id, round_nr) {
            None => r is None,
            Some(k) => r matches Some(i) && i == k && i < 20,
        },
{
    let mut addressee_nr: Option<usize> = None;
    let mut i: usize = 0;
    while i < RECORD_MESSAGE_SLOTS
        invariant
            0 <= i <= 20,
            forall|j: int| 0 <= j < i ==> g.addressees@[j] != addressee_id,
            match addressee_nr {
                None => forall|j: int| 0 <= j < i ==> !slot_reusable(*g, j, round_nr),
                Some(k) => k < i && slot_reusable(*g, k as int, round_nr)
                    && forall|j: int| k < j < i ==> !slot_reusable(*g, j, round_nr),
            },
        decreases 20 - i,
    {
        if g.addressees[i] == addressee_id {
            proof {
                let c = choose|c: int| 0 <= c < 20 && g.addressees@[c] == addressee_id && forall|j: int| 0 <= j < c ==> g.addressees@[j] != addressee_id;
                assert(0 <= i < 20 && g.addressees@[i as int] == addressee_id);
                assert(c == i) by {
                    if c < i { assert(g.addressees@[c] != addressee_id); }
                    if i < c { assert(g.addressees@[i as int] != addressee_id); }
                }
            }
            return Some(i);
        }
        if g.addressees[i] == 0 || round_nr as u64 > g.addressees_times[i] as u64
            + RECORD_MESSAGE_SLOT_AGE_ROUNDS as u64 {
            addressee_nr = Some(i);
        }
        i = i + 1;
    }
    proof {
        assert(!(exists|c: int| 0 <= c < 20 && g.addressees@[c] == addressee_id));
        if let Some(k) = addressee_nr {
            let c = choose|c: int| 0 <= c < 20 && slot_reusable(*g, c, round_nr) && forall|j: int| c < j < 20 ==> !slot_reusable(*g, j, round_nr);
            assert(slot_reusable(*g, k as int, round_nr));
            assert(c == k) by {
                if c < k { assert(!slot_reusable(*g, k as int, round_nr)); }
                if k < c { assert(!slot_reusable(*g, c, round_nr)); }
            }
        } else {
            assert(!(exists|c: int| 0 <= c < 20 && slot_reusable(*g, c, round_nr)));
        }
    }
    addressee_nr
}

/// Records one private message; returns mute seconds when 20 distinct addressees are
/// still inside the 600-round window, else 0.
pub fn record_message(guard: &mut PlayerTalkGuard, addressee_id: u32, round_nr: u32) -> (r: u32)
    ensures
        final(guard).talk_buffer_full_time == old(guard).talk_buffer_full_time,
        final(guard).earliest_trade_channel_round == old(guard).earliest_trade_channel_round,
        match spec_addressee_slot(*old(guard), addressee_id, round_nr) {
            None => (*final(guard), r) == spec_mute(*old(guard), round_nr),
            Some(i) => {
                &&& r == 0
                &&& final(guard).addressees@ == old(guard).addressees@.update(i, addressee_id)
                &&& final(guard).addressees_times@ == old(guard).addressees_times@.update(i, round_nr)
                &&& final(guard).number_of_mutings == old(guard).number_of_mutings
                &&& final(guard).muting_end_round == old(guard).muting_end_round
            },
        },
{
    let addressee_nr = addressee_slot(guard, addressee_id, round_nr);
    match addressee_nr {
        None => mute(guard, round_nr),
        Some(i) => {
            guard.addressees[i] = addressee_id;
            guard.addressees_times[i] = round_nr;
            0
        },
    }
}

/// The trade channel is blocked until the cooldown round.
pub fn trade_channel_blocked(guard: &PlayerTalkGuard, round_nr: u32) -> (r: bool)
    ensures
        r == (guard.earliest_trade_channel_round > round_nr),
{
    guard.earliest_trade_channel_round > round_nr
}

/// Starts the trade-channel cooldown of 120 rounds from `round_nr`.
pub fn stamp_trade_channel(guard: &mut PlayerTalkGuard, round_nr: u32)
    ensures
        *final(guard) == (PlayerTalkGuard {
            earliest_trade_channel_round: sat_add_u32(round_nr as int, TRADE_CHANNEL_COOLDOWN_ROUNDS as int),
            ..*old(guard)
        }),
{
    guard.earliest_trade_channel_round = round_nr.saturating_add(TRADE_CHANNEL_COOLDOWN_ROUNDS);
}

/// `"<prefix> for 1 second."` or `"<prefix> for <n> seconds."`.
pub open spec fn spec_mute_sentence(prefix: Seq<char>, seconds: u32) -> Seq<char> {
    if seconds == 1 {
        prefix + " for 1 second."@
    } else {
        prefix + " for "@ + decimal(seconds as nat) + " seconds."@
    }
}

fn mute_seconds_sentence(prefix: &str, seconds: u32) -> (s: String)
    ensures
        s@ == spec_mute_sentence(prefix@, seconds),
{
    let mut s = String::from_str(prefix);
    if seconds == 1 {
        s.append(" for 1 second.");
    } else {
        s.append(" for ");
        let n = u64_to_decimal(seconds as u64);
        s.append(n.as_str());
        s.append(" seconds.");
    }
    s
}

pub fn muted_still_text(seconds: u32) -> (s: String)
    ensures
        s@ == spec_mute_sentence("You are still muted"@, seconds),
{
    mute_seconds_sentence("You are still muted", seconds)
}

pub fn muted_now_text(seconds: u32) -> (s: String)
    ensures
        s@ == spec_mute_sentence("You are muted"@, seconds),
{
    mute_seconds_sentence("You are muted", seconds)
}

pub fn addressed_too_many_text(seconds: u32) -> (s: String)
    ensures
        s@ == spec_mute_sentence("You have addressed too many players. You are muted"@, seconds),
{
    mute_seconds_sentence("You have addressed too many players. You are muted", seconds)
}

/// The guild line of a look description; `None` when the guild name is empty.
pub open spec fn spec_guild_clause(
    looking_at_self: bool,
    pronoun: Seq<char>,
    guild: Seq<char>,
    rank: Seq<char>,
    nick: Seq<char>,
) -> Option<Seq<char>> {
    if guild.len() == 0 {
        None
    } else {
        let lead = if looking_at_self { "You are "@ } else { pronoun + " is "@ };
        let role = if rank.len() == 0 { "a member"@ } else { rank };
        let base = lead + role + " of the "@ + guild;
        Some(if nick.len() == 0 { base } else { base + " ("@ + nick + ")"@ })
    }
}

pub fn guild_membership_clause(
    looking_at_self: bool,
    pronoun: &str,
    guild: &str,
    rank: &str,
    nick: &str,
) -> (r: Option<String>)
    ensures
        match spec_guild_clause(looking_at_self, pronoun@, guild@, rank@, nick@) {
            None => r is None,
            Some(t) => r matches Some(s) && s@ == t,
        },
{
    if guild.unicode_len() == 0 {
        return None;
    }
    let mut clause = if looking_at_self {
        String::from_str("You are ")
    } else {
        let mut l = String::from_str(pronoun);
        l.append(" is ");
        l
    };
    if rank.unicode_len() == 0 {
        clause.append("a member");
    } else {
        clause.append(rank);
    }
    clause.append(" of the ");
    clause.append(guild);
    if nick.unicode_len() != 0 {
        clause.append(" (");
        clause.append(nick);
        clause.append(")");
    }
    Some(clause)
}

} // verus!
