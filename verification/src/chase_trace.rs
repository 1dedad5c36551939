//! Lines of the monster chase / combat trace: one JSON object per line, each with the
//! source `"rust"`, the event name, and for creature events the tick, creature id and
//! name. Booleans are written as 1 or 0. These build the lines; writing them is the
//! caller's part.

use vstd::prelude::*;
use vstd::string::*;
use crate::ids::{CreatureId, Position};
use crate::text::{decimal, i64_to_decimal, signed_decimal, u64_to_decimal};

verus! {

broadcast use vstd::string::group_string_axioms;

/// A name inside a JSON string: backslashes and double quotes escaped.
pub open spec fn json_escaped(s: Seq<char>) -> Seq<char>
    decreases s.len(),
{
    if s.len() == 0 {
        Seq::empty()
    } else {
        json_escaped(s.drop_last()) + escaped_char(s.last())
    }
}

pub open spec fn escaped_char(c: char) -> Seq<char> {
    if c == '\\' { seq!['\\', '\\'] } else if c == '"' { seq!['\\', '"'] } else { seq![c] }
}

/// `json_escaped` of `name`.
pub fn json_escape_name(name: &str) -> (r: String)
    ensures
        r@ == json_escaped(name@),
{
    let n = name.unicode_len();
    let mut r = String::new();
    let mut i: usize = 0;
    while i < n
        invariant
            n == name@.len(),
            i <= n,
            r@ == json_escaped(name@.subrange(0, i as int)),
        decreases n - i,
    {
        let c = name.get_char(i);
        proof {
            assert(name@.subrange(0, i + 1).drop_last() =~= name@.subrange(0, i as int));
        }
        if c == '\\' {
            let piece = "\\\\";
            proof {
                reveal_strlit("\\\\");
                assert(piece@ =~= seq!['\\', '\\']);
            }
            r.append(piece);
        } else if c == '"' {
            let piece = "\\\"";
            proof {
                reveal_strlit("\\\"");
                assert(piece@ =~= seq!['\\', '"']);
            }
            r.append(piece);
        } else {
            let one = name.substring_char(i, i + 1);
            assert(one@ =~= seq![c]);
            r.append(one);
        }
        i = i + 1;
        assert(r@ =~= json_escaped(name@.subrange(0, i as int)));
    }
    assert(name@.subrange(0, i as int) =~= name@);
    r
}

/// A boolean as the trace writes it.
pub open spec fn flag(b: bool) -> Seq<char> {
    if b { "1"@ } else { "0"@ }
}

fn flag_text(b: bool) -> (r: &'static str)
    ensures
        r@ == flag(b),
{
    if b { "1" } else { "0" }
}

/// The opening of a creature event line (without the closing brace).
pub open spec fn header(tick: u64, cid: CreatureId, name: Seq<char>, evt: Seq<char>) -> Seq<char> {
    "{\"src\":\"rust\",\"evt\":\""@ + evt + "\",\"tick\":"@ + decimal(tick as nat) + ",\"id\":"@
        + decimal(cid as nat) + ",\"name\":\""@ + json_escaped(name) + "\""@
}

fn header_text(tick: u64, cid: CreatureId, name: &str, evt: &str) -> (r: String)
    ensures
        r@ == header(tick, cid, name@, evt@),
{
    let mut s = String::from_str("{\"src\":\"rust\",\"evt\":\"");
    s.append(evt);
    s.append("\",\"tick\":");
    let t = u64_to_decimal(tick);
    s.append(t.as_str());
    s.append(",\"id\":");
    let id = u64_to_decimal(cid);
    s.append(id.as_str());
    s.append(",\"name\":\"");
    let esc = json_escape_name(name);
    s.append(esc.as_str());
    s.append("\"");
    s
}

fn push_u64(s: &mut String, v: u64)
    ensures
        final(s)@ == old(s)@ + decimal(v as nat),
{
    let d = u64_to_decimal(v);
    s.append(d.as_str());
}

fn push_i64(s: &mut String, v: i64)
    ensures
        final(s)@ == old(s)@ + signed_decimal(v as int),
{
    let d = i64_to_decimal(v);
    s.append(d.as_str());
}

/// Combat posture and chase mode, with the attack target when there is one.
pub fn log_combat_state(tick: u64, cid: CreatureId, name: &str, state: &str, chase_mode: &str, attack_target: Option<u64>) -> (r: String)
    ensures
        r@ == header(tick, cid, name@, "combat_state"@) + ",\"monster_state\":\""@ + state@ + "\",\"chase_mode\":\""@
            + chase_mode@ + "\""@ + (match attack_target {
                Some(id) => ",\"attack_target\":"@ + decimal(id as nat),
                None => Seq::empty(),
            }) + "}"@,
{
    let mut s = header_text(tick, cid, name, "combat_state");
    s.append(",\"monster_state\":\"");
    s.append(state);
    s.append("\",\"chase_mode\":\"");
    s.append(chase_mode);
    s.append("\"");
    let ghost before = s@;
    match attack_target {
        Some(id) => {
            s.append(",\"attack_target\":");
            push_u64(&mut s, id);
        },
        None => {},
    }
    s.append("}");
    assert(s@ =~= before + (match attack_target {
        Some(id) => ",\"attack_target\":"@ + decimal(id as nat),
        None => Seq::empty(),
    }) + "}"@);
    s
}

/// An attack queued: the wait, whether a closing step is needed, the chase mode.
pub fn log_attack_enqueue(tick: u64, cid: CreatureId, name: &str, wait_ms: u32, needs_close_step: bool, close_chase: &str) -> (r: String)
    ensures
        r@ == header(tick, cid, name@, "attack_enqueue"@) + ",\"wait_ms\":"@ + decimal(wait_ms as nat)
            + ",\"needs_close_step\":"@ + flag(needs_close_step) + ",\"close_chase\":\""@ + close_chase@ + "\"}"@,
{
    let mut s = header_text(tick, cid, name, "attack_enqueue");
    s.append(",\"wait_ms\":");
    push_u64(&mut s, wait_ms as u64);
    s.append(",\"needs_close_step\":");
    s.append(flag_text(needs_close_step));
    s.append(",\"close_chase\":\"");
    s.append(close_chase);
    s.append("\"}");
    s
}

/// A monster hit: the state change, attacker, damage and whether it had a target.
pub fn log_damage_stimulus(tick: u64, cid: CreatureId, name: &str, old_state: &str, new_state: &str, attacker_id: u64, damage: i32, had_target: bool) -> (r: String)
    ensures
        r@ == header(tick, cid, name@, "damage_stimulus"@) + ",\"old_state\":\""@ + old_state@ + "\",\"new_state\":\""@
            + new_state@ + "\",\"attacker_id\":"@ + decimal(attacker_id as nat) + ",\"damage\":"@
            + signed_decimal(damage as int) + ",\"had_target\":"@ + flag(had_target) + "}"@,
{
    let mut s = header_text(tick, cid, name, "damage_stimulus");
    s.append(",\"old_state\":\"");
    s.append(old_state);
    s.append("\",\"new_state\":\"");
    s.append(new_state);
    s.append("\",\"attacker_id\":");
    push_u64(&mut s, attacker_id);
    s.append(",\"damage\":");
    push_i64(&mut s, damage as i64);
    s.append(",\"had_target\":");
    s.append(flag_text(had_target));
    s.append("}");
    s
}

/// A monster spell: its (escaped) name, target, shape and range.
pub fn log_spell_cast(tick: u64, cid: CreatureId, name: &str, spell_name: &str, target_id: u64, shape: &str, range: i32) -> (r: String)
    ensures
        r@ == header(tick, cid, name@, "spell_cast"@) + ",\"spell\":\""@ + json_escaped(spell_name@) + "\",\"target_id\":"@
            + decimal(target_id as nat) + ",\"shape\":\""@ + shape@ + "\",\"range\":"@ + signed_decimal(range as int) + "}"@,
{
    let mut s = header_text(tick, cid, name, "spell_cast");
    s.append(",\"spell\":\"");
    let esc = json_escape_name(spell_name);
    s.append(esc.as_str());
    s.append("\",\"target_id\":");
    push_u64(&mut s, target_id);
    s.append(",\"shape\":\"");
    s.append(shape);
    s.append("\",\"range\":");
    push_i64(&mut s, range as i64);
    s.append("}");
    s
}

/// One idle stimulus of a monster.
pub fn log_idle_stimulus(tick: u64, cid: CreatureId, name: &str) -> (r: String)
    ensures
        r@ == header(tick, cid, name@, "idle_stimulus"@) + "}"@,
{
    let mut s = header_text(tick, cid, name, "idle_stimulus");
    s.append("}");
    s
}

/// A wait queued or run.
pub fn log_todo_wait(tick: u64, cid: CreatureId, name: &str, delay_ms: u64, phase: &str) -> (r: String)
    ensures
        r@ == header(tick, cid, name@, "todo_wait"@) + ",\"delay_ms\":"@ + decimal(delay_ms as nat)
            + ",\"phase\":\""@ + phase@ + "\"}"@,
{
    let mut s = header_text(tick, cid, name, "todo_wait");
    s.append(",\"delay_ms\":");
    push_u64(&mut s, delay_ms);
    s.append(",\"phase\":\"");
    s.append(phase);
    s.append("\"}");
    s
}

/// A turn toward a direction, with the target when there is one.
pub fn log_rotate(tick: u64, cid: CreatureId, name: &str, dir: u8, target_id: Option<u64>) -> (r: String)
    ensures
        r@ == header(tick, cid, name@, "rotate"@) + ",\"dir\":"@ + decimal(dir as nat) + (match target_id {
            Some(id) => ",\"target_id\":"@ + decimal(id as nat),
            None => Seq::empty(),
        }) + "}"@,
{
    let mut s = header_text(tick, cid, name, "rotate");
    s.append(",\"dir\":");
    push_u64(&mut s, dir as u64);
    let ghost before = s@;
    match target_id {
        Some(id) => {
            s.append(",\"target_id\":");
            push_u64(&mut s, id);
        },
        None => {},
    }
    s.append("}");
    assert(s@ =~= before + (match target_id {
        Some(id) => ",\"target_id\":"@ + decimal(id as nat),
        None => Seq::empty(),
    }) + "}"@);
    s
}

/// A creature moved in sight: the mover, the kind of move, the distance.
pub fn log_creature_move_stimulus(tick: u64, cid: CreatureId, name: &str, mover_id: u64, kind: &str, cheb: i32) -> (r: String)
    ensures
        r@ == header(tick, cid, name@, "creature_move_stimulus"@) + ",\"mover_id\":"@ + decimal(mover_id as nat)
            + ",\"kind\":\""@ + kind@ + "\",\"cheb\":"@ + signed_decimal(cheb as int) + "}"@,
{
    let mut s = header_text(tick, cid, name, "creature_move_stimulus");
    s.append(",\"mover_id\":");
    push_u64(&mut s, mover_id);
    s.append(",\"kind\":\"");
    s.append(kind);
    s.append("\",\"cheb\":");
    push_i64(&mut s, cheb as i64);
    s.append("}");
    s
}

/// A change of the action queue: its label, length, lock and walk queue length.
pub fn log_todo_label(tick: u64, cid: CreatureId, name: &str, label: &str, queue_len: usize, locked: bool, walk_queue_len: usize) -> (r: String)
    ensures
        r@ == header(tick, cid, name@, "todo_label"@) + ",\"label\":\""@ + label@ + "\",\"queue_len\":"@
            + decimal(queue_len as nat) + ",\"locked\":"@ + flag(locked) + ",\"walk_queue_len\":"@
            + decimal(walk_queue_len as nat) + "}"@,
{
    let mut s = header_text(tick, cid, name, "todo_label");
    s.append(",\"label\":\"");
    s.append(label);
    s.append("\",\"queue_len\":");
    push_u64(&mut s, queue_len as u64);
    s.append(",\"locked\":");
    s.append(flag_text(locked));
    s.append(",\"walk_queue_len\":");
    push_u64(&mut s, walk_queue_len as u64);
    s.append("}");
    s
}

/// A random draw: its index, value and call site when known.
pub fn log_rng_trace(call_index: u64, value: i32, site: Option<&str>) -> (r: String)
    ensures
        r@ == "{\"src\":\"rust\",\"evt\":\"rng_trace\",\"call_index\":"@ + decimal(call_index as nat)
            + ",\"value\":"@ + signed_decimal(value as int) + (match site {
                Some(t) => ",\"site\":\""@ + t@ + "\""@,
                None => Seq::empty(),
            }) + "}"@,
{
    let mut s = String::from_str("{\"src\":\"rust\",\"evt\":\"rng_trace\",\"call_index\":");
    push_u64(&mut s, call_index);
    s.append(",\"value\":");
    push_i64(&mut s, value as i64);
    let ghost before = s@;
    match site {
        Some(t) => {
            s.append(",\"site\":\"");
            s.append(t);
            s.append("\"");
        },
        None => {},
    }
    s.append("}");
    assert(s@ =~= before + (match site {
        Some(t) => ",\"site\":\""@ + t@ + "\""@,
        None => Seq::empty(),
    }) + "}"@);
    s
}

/// The random stream reset with a seed.
pub fn log_rng_resync(seed: u64) -> (r: String)
    ensures
        r@ == "{\"src\":\"rust\",\"evt\":\"rng_resync\",\"seed\":"@ + decimal(seed as nat) + "}"@,
{
    let mut s = String::from_str("{\"src\":\"rust\",\"evt\":\"rng_resync\",\"seed\":");
    push_u64(&mut s, seed);
    s.append("}");
    s
}

/// The fields of a hit: target, attack, defense, armor, damage, health before and after,
/// and the next attack time.
pub open spec fn hit_fields(target_id: u64, attack: i32, defense: i32, armor: i32, damage: i32, hp_before: i32, hp_after: i32, earliest_attack_ms: u64) -> Seq<char> {
    ",\"target_id\":"@ + decimal(target_id as nat) + ",\"attack\":"@ + signed_decimal(attack as int)
        + ",\"defense\":"@ + signed_decimal(defense as int) + ",\"armor\":"@ + signed_decimal(armor as int)
        + ",\"damage\":"@ + signed_decimal(damage as int) + ",\"hp_before\":"@ + signed_decimal(hp_before as int)
        + ",\"hp_after\":"@ + signed_decimal(hp_after as int) + ",\"earliest_attack_ms\":"@
        + decimal(earliest_attack_ms as nat) + "}"@
}

fn push_hit_fields(s: &mut String, target_id: u64, attack: i32, defense: i32, armor: i32, damage: i32, hp_before: i32, hp_after: i32, earliest_attack_ms: u64)
    ensures
        final(s)@ == old(s)@ + hit_fields(target_id, attack, defense, armor, damage, hp_before, hp_after, earliest_attack_ms),
{
    let ghost o = s@;
    s.append(",\"target_id\":");
    push_u64(s, target_id);
    s.append(",\"attack\":");
    push_i64(s, attack as i64);
    s.append(",\"defense\":");
    push_i64(s, defense as i64);
    s.append(",\"armor\":");
    push_i64(s, armor as i64);
    s.append(",\"damage\":");
    push_i64(s, damage as i64);
    s.append(",\"hp_before\":");
    push_i64(s, hp_before as i64);
    s.append(",\"hp_after\":");
    push_i64(s, hp_after as i64);
    s.append(",\"earliest_attack_ms\":");
    push_u64(s, earliest_attack_ms);
    s.append("}");
    assert(s@ =~= o + hit_fields(target_id, attack, defense, armor, damage, hp_before, hp_after, earliest_attack_ms));
}

/// A melee strike outcome.
pub fn log_melee_hit(tick: u64, cid: CreatureId, name: &str, target_id: u64, attack: i32, defense: i32, armor: i32, damage: i32, hp_before: i32, hp_after: i32, earliest_attack_ms: u64) -> (r: String)
    ensures
        r@ == header(tick, cid, name@, "melee_hit"@)
            + hit_fields(target_id, attack, defense, armor, damage, hp_before, hp_after, earliest_attack_ms),
{
    let mut s = header_text(tick, cid, name, "melee_hit");
    push_hit_fields(&mut s, target_id, attack, defense, armor, damage, hp_before, hp_after, earliest_attack_ms);
    s
}

/// A distance attack outcome.
pub fn log_ranged_hit(tick: u64, cid: CreatureId, name: &str, target_id: u64, attack: i32, defense: i32, armor: i32, damage: i32, hp_before: i32, hp_after: i32, earliest_attack_ms: u64) -> (r: String)
    ensures
        r@ == header(tick, cid, name@, "ranged_hit"@)
            + hit_fields(target_id, attack, defense, armor, damage, hp_before, hp_after, earliest_attack_ms),
{
    let mut s = header_text(tick, cid, name, "ranged_hit");
    push_hit_fields(&mut s, target_id, attack, defense, armor, damage, hp_before, hp_after, earliest_attack_ms);
    s
}

/// A monster death: killer, experience granted and corpse item.
pub fn log_creature_death(tick: u64, cid: CreatureId, name: &str, killer_id: u64, experience: u32, corpse_id: u16) -> (r: String)
    ensures
        r@ == header(tick, cid, name@, "creature_death"@) + ",\"killer_id\":"@ + decimal(killer_id as nat)
            + ",\"experience\":"@ + decimal(experience as nat) + ",\"corpse_id\":"@ + decimal(corpse_id as nat) + "}"@,
{
    let mut s = header_text(tick, cid, name, "creature_death");
    s.append(",\"killer_id\":");
    push_u64(&mut s, killer_id);
    s.append(",\"experience\":");
    push_u64(&mut s, experience as u64);
    s.append(",\"corpse_id\":");
    push_u64(&mut s, corpse_id as u64);
    s.append("}");
    s
}

// ---------------------------------------------------------------------------
// Lines with positions
// ---------------------------------------------------------------------------

/// `"key":{"x":..,"y":..,"z":..}`.
pub open spec fn pos_json(key: Seq<char>, p: Position) -> Seq<char> {
    "\""@ + key + "\":"@ + point_json(p)
}

/// `{"x":..,"y":..,"z":..}`.
pub open spec fn point_json(p: Position) -> Seq<char> {
    "{\"x\":"@ + decimal(p.x as nat) + ",\"y\":"@ + decimal(p.y as nat) + ",\"z\":"@ + decimal(p.z as nat) + "}"@
}

fn push_point(s: &mut String, p: Position)
    ensures
        final(s)@ == old(s)@ + point_json(p),
{
    let ghost start = s@;
    s.append("{\"x\":");
    push_u64(s, p.x as u64);
    s.append(",\"y\":");
    push_u64(s, p.y as u64);
    s.append(",\"z\":");
    push_u64(s, p.z as u64);
    s.append("}");
    assert(s@ =~= start + point_json(p));
}

fn push_pos(s: &mut String, key: &str, p: Position)
    ensures
        final(s)@ == old(s)@ + pos_json(key@, p),
{
    let ghost start = s@;
    s.append("\"");
    s.append(key);
    s.append("\":");
    push_point(s, p);
    assert(s@ =~= start + pos_json(key@, p));
}

pub open spec fn abs_diff(a: int, b: int) -> int {
    if a >= b { a - b } else { b - a }
}

/// Chebyshev distance on the floor plane.
pub open spec fn cheb(a: Position, b: Position) -> int {
    let dx = abs_diff(a.x as int, b.x as int);
    let dy = abs_diff(a.y as int, b.y as int);
    if dx >= dy { dx } else { dy }
}

fn chebyshev(a: Position, b: Position) -> (r: i32)
    ensures
        r == cheb(a, b),
{
    let dx: i32 = if a.x >= b.x { (a.x - b.x) as i32 } else { (b.x - a.x) as i32 };
    let dy: i32 = if a.y >= b.y { (a.y - b.y) as i32 } else { (b.y - a.y) as i32 };
    if dx >= dy { dx } else { dy }
}

/// How a walk toward `dest` is labelled: `single` for one orthogonal step, else
/// `enter`.
pub fn todo_go_via_from_path(from: Position, dest: Position) -> (r: &'static str)
    ensures
        r@ == (if abs_diff(dest.x as int, from.x as int) + abs_diff(dest.y as int, from.y as int) == 1 {
            "single"@
        } else {
            "enter"@
        }),
{
    let dx: i32 = if dest.x >= from.x { (dest.x - from.x) as i32 } else { (from.x - dest.x) as i32 };
    let dy: i32 = if dest.y >= from.y { (dest.y - from.y) as i32 } else { (from.y - dest.y) as i32 };
    if dx + dy == 1 { "single" } else { "enter" }
}

/// `,"key":"text"` when `text` is given.
pub open spec fn opt_text(key: Seq<char>, t: Option<Seq<char>>) -> Seq<char> {
    match t {
        Some(v) => ",\""@ + key + "\":\""@ + v + "\""@,
        None => Seq::empty(),
    }
}

/// `,"key":id` when `id` is given.
pub open spec fn opt_id(key: Seq<char>, t: Option<u64>) -> Seq<char> {
    match t {
        Some(v) => ",\""@ + key + "\":"@ + decimal(v as nat),
        None => Seq::empty(),
    }
}

pub open spec fn view_opt(t: Option<&str>) -> Option<Seq<char>> {
    match t {
        Some(v) => Some(v@),
        None => None,
    }
}

fn push_opt_text(s: &mut String, key: &str, t: Option<&str>)
    ensures
        final(s)@ == old(s)@ + opt_text(key@, view_opt(t)),
{
    let ghost start = s@;
    match t {
        Some(v) => {
            s.append(",\"");
            s.append(key);
            s.append("\":\"");
            s.append(v);
            s.append("\"");
        },
        None => {},
    }
    assert(s@ =~= start + opt_text(key@, view_opt(t)));
}

fn push_opt_id(s: &mut String, key: &str, t: Option<u64>)
    ensures
        final(s)@ == old(s)@ + opt_id(key@, t),
{
    let ghost start = s@;
    match t {
        Some(v) => {
            s.append(",\"");
            s.append(key);
            s.append("\":");
            push_u64(s, v);
        },
        None => {},
    }
    assert(s@ =~= start + opt_id(key@, t));
}

/// The common part of a path decision: both ends, must-reach, step budget, distance.
pub open spec fn path_fields(from: Position, dest: Position, must_reach: bool, max_steps: i32) -> Seq<char> {
    ","@ + pos_json("from"@, from) + ","@ + pos_json("dest"@, dest) + ",\"must\":"@ + flag(must_reach)
        + ",\"max\":"@ + signed_decimal(max_steps as int) + ",\"cheb\":"@ + signed_decimal(cheb(from, dest))
}

fn push_path_fields(s: &mut String, from: Position, dest: Position, must_reach: bool, max_steps: i32)
    ensures
        final(s)@ == old(s)@ + path_fields(from, dest, must_reach, max_steps),
{
    let ghost start = s@;
    s.append(",");
    push_pos(s, "from", from);
    s.append(",");
    push_pos(s, "dest", dest);
    s.append(",\"must\":");
    s.append(flag_text(must_reach));
    s.append(",\"max\":");
    push_i64(s, max_steps as i64);
    s.append(",\"cheb\":");
    let c = chebyshev(from, dest);
    push_i64(s, c as i64);
    assert(s@ =~= start + path_fields(from, dest, must_reach, max_steps));
}

/// A path branch taken, with its reason when given.
pub fn log_branch(tick: u64, cid: CreatureId, name: &str, branch: &str, from: Position, dest: Position, must_reach: bool, max_steps: i32, reason: Option<&str>) -> (r: String)
    ensures
        r@ == header(tick, cid, name@, "branch"@) + ",\"branch\":\""@ + branch@ + "\""@
            + path_fields(from, dest, must_reach, max_steps) + opt_text("reason"@, view_opt(reason)) + "}"@,
{
    let mut s = header_text(tick, cid, name, "branch");
    s.append(",\"branch\":\"");
    s.append(branch);
    s.append("\"");
    push_path_fields(&mut s, from, dest, must_reach, max_steps);
    push_opt_text(&mut s, "reason", reason);
    s.append("}");
    s
}

/// The idle arm of a walk, when one is given and not empty.
pub open spec fn arm_of(arm: Option<&str>) -> Option<Seq<char>> {
    match arm {
        Some(a) => if a@.len() > 0 { Some(a@) } else { None },
        None => None,
    }
}

/// A walk queued: its label, the path decision and the idle arm.
pub fn log_todo_go(tick: u64, cid: CreatureId, name: &str, via: &str, from: Position, dest: Position, must_reach: bool, max_steps: i32, arm: Option<&str>) -> (r: String)
    ensures
        r@ == header(tick, cid, name@, "todo_go"@) + ",\"via\":\""@ + via@ + "\""@
            + path_fields(from, dest, must_reach, max_steps) + opt_text("arm"@, arm_of(arm)) + "}"@,
{
    let mut s = header_text(tick, cid, name, "todo_go");
    s.append(",\"via\":\"");
    s.append(via);
    s.append("\"");
    push_path_fields(&mut s, from, dest, must_reach, max_steps);
    let kept = match arm {
        Some(a) => if a.unicode_len() > 0 { Some(a) } else { None },
        None => None,
    };
    assert(view_opt(kept) == arm_of(arm));
    push_opt_text(&mut s, "arm", kept);
    s.append("}");
    s
}

/// `log_todo_go` labelled by `todo_go_via_from_path`.
pub fn log_todo_go_aligned(tick: u64, cid: CreatureId, name: &str, from: Position, dest: Position, must_reach: bool, max_steps: i32, arm: Option<&str>) -> (r: String)
    ensures
        r@ == header(tick, cid, name@, "todo_go"@) + ",\"via\":\""@
            + (if abs_diff(dest.x as int, from.x as int) + abs_diff(dest.y as int, from.y as int) == 1 {
                "single"@
            } else {
                "enter"@
            }) + "\""@ + path_fields(from, dest, must_reach, max_steps) + opt_text("arm"@, arm_of(arm)) + "}"@,
{
    let via = todo_go_via_from_path(from, dest);
    log_todo_go(tick, cid, name, via, from, dest, must_reach, max_steps, arm)
}

/// The points of a path, comma-separated.
pub open spec fn points_json(steps: Seq<Position>) -> Seq<char>
    decreases steps.len(),
{
    if steps.len() == 0 {
        Seq::empty()
    } else if steps.len() == 1 {
        point_json(steps[0])
    } else {
        points_json(steps.drop_last()) + ","@ + point_json(steps.last())
    }
}

/// A path search: the ends, the destination relative to the start, its limits, whether
/// it succeeded and the steps found.
pub fn log_shortway(
    tick: u64,
    cid: CreatureId,
    name: &str,
    start: Position,
    dest: Position,
    visible: i32,
    min_wp: u32,
    must_reach: bool,
    max_steps: i32,
    ok: bool,
    steps: &[Position],
) -> (r: String)
    ensures
        r@ == header(tick, cid, name@, "shortway"@) + ","@ + pos_json("start"@, start) + ","@ + pos_json("dest"@, dest)
            + ",\"rel_dest\":{\"x\":"@ + signed_decimal(dest.x - start.x) + ",\"y\":"@ + signed_decimal(dest.y - start.y)
            + "},\"visible\":"@ + signed_decimal(visible as int) + ",\"min_wp\":"@ + decimal(min_wp as nat)
            + ",\"must\":"@ + flag(must_reach) + ",\"max\":"@ + signed_decimal(max_steps as int) + ",\"ok\":"@ + flag(ok)
            + ",\"steps\":["@ + points_json(steps@) + "]}"@,
{
    let mut s = header_text(tick, cid, name, "shortway");
    s.append(",");
    push_pos(&mut s, "start", start);
    s.append(",");
    push_pos(&mut s, "dest", dest);
    s.append(",\"rel_dest\":{\"x\":");
    push_i64(&mut s, dest.x as i64 - start.x as i64);
    s.append(",\"y\":");
    push_i64(&mut s, dest.y as i64 - start.y as i64);
    s.append("},\"visible\":");
    push_i64(&mut s, visible as i64);
    s.append(",\"min_wp\":");
    push_u64(&mut s, min_wp as u64);
    s.append(",\"must\":");
    s.append(flag_text(must_reach));
    s.append(",\"max\":");
    push_i64(&mut s, max_steps as i64);
    s.append(",\"ok\":");
    s.append(flag_text(ok));
    s.append(",\"steps\":[");
    let ghost before = s@;
    let mut i: usize = 0;
    while i < steps.len()
        invariant
            i <= steps@.len(),
            s@ == before + points_json(steps@.subrange(0, i as int)),
        decreases steps@.len() - i,
    {
        let ghost pre = steps@.subrange(0, i as int);
        let ghost next = steps@.subrange(0, i + 1);
        assert(next.drop_last() =~= pre);
        if i > 0 {
            s.append(",");
        }
        push_point(&mut s, steps[i]);
        assert(s@ =~= before + points_json(next));
        i = i + 1;
    }
    assert(steps@.subrange(0, steps@.len() as int) =~= steps@);
    s.append("]}");
    s
}

/// A monster left with a target but nothing to do.
pub fn log_parked(
    tick: u64,
    cid: CreatureId,
    name: &str,
    pos: Position,
    state: &str,
    follow_target: Option<u64>,
    attack_target: Option<u64>,
    chase_mode: &str,
    cheb: i32,
    los_clear: bool,
) -> (r: String)
    ensures
        r@ == header(tick, cid, name@, "parked"@) + ","@ + pos_json("pos"@, pos) + ",\"state\":\""@ + state@
            + "\",\"chase_mode\":\""@ + chase_mode@ + "\",\"cheb\":"@ + signed_decimal(cheb as int)
            + ",\"los_clear\":"@ + flag(los_clear) + opt_id("follow_target"@, follow_target)
            + opt_id("attack_target"@, attack_target) + "}"@,
{
    let mut s = header_text(tick, cid, name, "parked");
    s.append(",");
    push_pos(&mut s, "pos", pos);
    s.append(",\"state\":\"");
    s.append(state);
    s.append("\",\"chase_mode\":\"");
    s.append(chase_mode);
    s.append("\",\"cheb\":");
    push_i64(&mut s, cheb as i64);
    s.append(",\"los_clear\":");
    s.append(flag_text(los_clear));
    push_opt_id(&mut s, "follow_target", follow_target);
    push_opt_id(&mut s, "attack_target", attack_target);
    s.append("}");
    s
}

/// A step executed; diagonal when both coordinates change on one floor.
pub fn log_go_exec(tick: u64, cid: CreatureId, name: &str, from: Position, to: Position) -> (r: String)
    ensures
        r@ == header(tick, cid, name@, "go_exec"@) + ","@ + pos_json("from"@, from) + ","@ + pos_json("to"@, to)
            + ",\"diag\":"@ + flag(from.x != to.x && from.y != to.y && from.z == to.z) + "}"@,
{
    let mut s = header_text(tick, cid, name, "go_exec");
    s.append(",");
    push_pos(&mut s, "from", from);
    s.append(",");
    push_pos(&mut s, "to", to);
    s.append(",\"diag\":");
    s.append(flag_text(from.x != to.x && from.y != to.y && from.z == to.z));
    s.append("}");
    s
}

/// A scripted player step and the tile it reached.
pub fn log_harness_player_step(tick: u64, step: u32, pos: Position) -> (r: String)
    ensures
        r@ == "{\"src\":\"rust\",\"evt\":\"harness_player_step\",\"tick\":"@ + decimal(tick as nat) + ",\"step\":"@
            + decimal(step as nat) + ","@ + pos_json("pos"@, pos) + "}"@,
{
    let mut s = String::from_str("{\"src\":\"rust\",\"evt\":\"harness_player_step\",\"tick\":");
    push_u64(&mut s, tick);
    s.append(",\"step\":");
    push_u64(&mut s, step as u64);
    s.append(",");
    push_pos(&mut s, "pos", pos);
    s.append("}");
    s
}

/// Whether the trace is on for the value of its switch: set, not empty and not `0`.
pub fn trace_switch_on(value: Option<&str>) -> (r: bool)
    ensures
        r == (match value {
            Some(v) => v@.len() > 0 && v@ != "0"@,
            None => false,
        }),
{
    match value {
        Some(v) => {
            if v.unicode_len() == 0 {
                return false;
            }
            let zero = "0";
            proof {
                reveal_strlit("0");
            }
            if v.unicode_len() == 1 && v.get_char(0) == '0' {
                assert(v@ =~= zero@);
                return false;
            }
            assert(v@ != zero@) by {
                if v@ == zero@ {
                    assert(v@.len() == 1 && v@[0] == '0');
                }
            }
            true
        },
        None => false,
    }
}

/// Where the trace goes without an explicit path.
pub fn default_trace_path() -> (r: &'static str)
    ensures
        r@ == "log/chase_ai.jsonl"@,
{
    "log/chase_ai.jsonl"
}

} // verus!
