//! The kite scenario script: a line-oriented text that sets up one player and some
//! monsters in an arena and lists the steps to play.
//!
//! Each line is split into whitespace-separated words; empty lines and lines whose first
//! word starts with `#` are skipped. The first word is the verb, the others its
//! arguments; numbers are decimal, with an optional sign as Rust's integer parsing
//! accepts it.

use vstd::prelude::*;
use vstd::string::*;
use vstd::std_specs::iter::IteratorSpec;
use crate::creature::monster::MonsterState;
use crate::ids::Position;
use crate::text::{ascii_lower, chars_of, decimal, lower_chars, lower_string, parse_number, parse_span, span_is, u64_to_decimal};

verus! {

broadcast use vstd::string::group_string_axioms;

// ---------------------------------------------------------------------------
// Lines and words
// ---------------------------------------------------------------------------

/// Unicode white space, as `char::is_whitespace` has it.
pub open spec fn is_white(c: char) -> bool {
    ('\t' <= c && c <= '\r') || c == ' ' || c == '\u{85}' || c == '\u{a0}' || c == '\u{1680}'
        || ('\u{2000}' <= c && c <= '\u{200a}') || c == '\u{2028}' || c == '\u{2029}'
        || c == '\u{202f}' || c == '\u{205f}' || c == '\u{3000}'
}

fn char_is_white(c: char) -> (r: bool)
    ensures
        r == is_white(c),
{
    ('\t' <= c && c <= '\r') || c == ' ' || c == '\u{85}' || c == '\u{a0}' || c == '\u{1680}'
        || ('\u{2000}' <= c && c <= '\u{200a}') || c == '\u{2028}' || c == '\u{2029}'
        || c == '\u{202f}' || c == '\u{205f}' || c == '\u{3000}'
}

/// The pieces of `s` between line feeds (one more than there are line feeds).
pub open spec fn split_lines(s: Seq<char>) -> Seq<Seq<char>>
    decreases s.len(),
{
    if s.len() == 0 {
        seq![Seq::empty()]
    } else {
        let prev = split_lines(s.drop_last());
        if s.last() == '\n' {
            prev.push(Seq::empty())
        } else {
            prev.update(prev.len() - 1, prev.last().push(s.last()))
        }
    }
}

/// The words of `s`: its maximal runs of characters that are not white space.
pub open spec fn words(s: Seq<char>) -> Seq<Seq<char>>
    decreases s.len(),
{
    if s.len() == 0 {
        Seq::empty()
    } else {
        let prev = words(s.drop_last());
        if is_white(s.last()) {
            prev
        } else if s.len() >= 2 && !is_white(s[s.len() - 2]) {
            prev.update(prev.len() - 1, prev.last().push(s.last()))
        } else {
            prev.push(seq![s.last()])
        }
    }
}

pub(crate) proof fn lemma_split_lines_nonempty(s: Seq<char>)
    ensures
        split_lines(s).len() >= 1,
    decreases s.len(),
{
    if s.len() > 0 {
        lemma_split_lines_nonempty(s.drop_last());
    }
}

/// The words of `line[a..b]` as index ranges into `line`.
pub(crate) fn word_spans(line: &Vec<char>, a: usize, b: usize) -> (spans: Vec<(usize, usize)>)
    requires
        a <= b <= line@.len(),
    ensures
        spans@.len() == words(line@.subrange(a as int, b as int)).len(),
        forall|k: int| 0 <= k < spans@.len() ==> a <= (#[trigger] spans@[k]).0 < spans@[k].1 <= b
            && line@.subrange(spans@[k].0 as int, spans@[k].1 as int)
                == words(line@.subrange(a as int, b as int))[k],
{
    let mut spans: Vec<(usize, usize)> = Vec::new();
    let mut i: usize = a;
    while i < b
        invariant
            a <= i <= b <= line@.len(),
            spans@.len() == words(line@.subrange(a as int, i as int)).len(),
            forall|k: int| 0 <= k < spans@.len() ==> a <= (#[trigger] spans@[k]).0 < spans@[k].1 <= i
                && line@.subrange(spans@[k].0 as int, spans@[k].1 as int)
                    == words(line@.subrange(a as int, i as int))[k],
            i > a && !is_white(line@[i - 1]) ==> spans@.len() >= 1 && spans@.last().1 == i,
        decreases b - i,
    {
        let c = line[i];
        let ghost pre = line@.subrange(a as int, i as int);
        let ghost cur = line@.subrange(a as int, i + 1);
        proof {
            assert(cur.drop_last() =~= pre);
            assert(cur.last() == c);
        }
        if char_is_white(c) {
        } else if i > a && !char_is_white(line[i - 1]) {
            let last = spans.len() - 1;
            let (s0, _) = spans[last];
            spans.set(last, (s0, i + 1));
            proof {
                assert(cur[cur.len() - 2] == line@[i - 1]);
                assert(line@.subrange(s0 as int, i + 1) =~= line@.subrange(s0 as int, i as int).push(c));
            }
        } else {
            spans.push((i, i + 1));
            proof {
                assert(i > a ==> cur[cur.len() - 2] == line@[i - 1]);
                assert(line@.subrange(i as int, i + 1) =~= seq![c]);
            }
        }
        i = i + 1;
    }
    spans
}

// ---------------------------------------------------------------------------
// Monster state names
// ---------------------------------------------------------------------------

/// The monster state a script names, in any letter case.
pub open spec fn named_monster_state(raw: Seq<char>) -> Option<MonsterState> {
    let l = ascii_lower(raw);
    if l == "sleeping"@ {
        Some(MonsterState::Sleeping)
    } else if l == "idle"@ {
        Some(MonsterState::Idle)
    } else if l == "under_attack"@ || l == "underattack"@ {
        Some(MonsterState::UnderAttack)
    } else if l == "attacking"@ {
        Some(MonsterState::Attacking)
    } else if l == "panic"@ {
        Some(MonsterState::Panic)
    } else {
        None
    }
}

/// The monster state named by `raw` (in any letter case); an unknown name is an error
/// that quotes it in lower case.
pub fn parse_monster_state(raw: &str) -> (r: Result<MonsterState, String>)
    ensures
        match named_monster_state(raw@) {
            Some(st) => r == Ok::<MonsterState, String>(st),
            None => r is Err && r->Err_0@ == "unknown monster_state: "@ + ascii_lower(raw@),
        },
{
    let l = lower_chars(raw);
    let n = l.len();
    if span_is(&l, 0, n, "sleeping") {
        proof { assert(l@.subrange(0, n as int) =~= l@); }
        Ok(MonsterState::Sleeping)
    } else if span_is(&l, 0, n, "idle") {
        proof { assert(l@.subrange(0, n as int) =~= l@); }
        Ok(MonsterState::Idle)
    } else if span_is(&l, 0, n, "under_attack") || span_is(&l, 0, n, "underattack") {
        proof { assert(l@.subrange(0, n as int) =~= l@); }
        Ok(MonsterState::UnderAttack)
    } else if span_is(&l, 0, n, "attacking") {
        proof { assert(l@.subrange(0, n as int) =~= l@); }
        Ok(MonsterState::Attacking)
    } else if span_is(&l, 0, n, "panic") {
        proof { assert(l@.subrange(0, n as int) =~= l@); }
        Ok(MonsterState::Panic)
    } else {
        proof { assert(l@.subrange(0, n as int) =~= l@); }
        let mut msg = String::from_str("unknown monster_state: ");
        let lowered = lower_string(raw);
        msg.append(lowered.as_str());
        Err(msg)
    }
}

// ---------------------------------------------------------------------------
// The scenario
// ---------------------------------------------------------------------------

/// A monster to spawn: its type label and tile.
pub struct MonsterSpawn {
    pub label: String,
    pub pos: (u16, u16),
}

/// One script step, played in order.
#[derive(Debug, Clone, Copy, PartialEq, Eq, Structural)]
pub enum ScenarioStep {
    /// Let this many milliseconds of game time pass.
    AdvanceMs(u64),
    /// The monsters appear to the player.
    MonsterAppear,
    /// Teleport the player to this tile.
    PlayerPos(u16, u16),
    /// Run one simulation tick.
    SimTick,
    /// The player hits every monster for this much.
    PlayerDamage(i32),
    /// The player hits the monster with this index for this much.
    PlayerDamageMonster(usize, i32),
}

/// A parsed kite scenario.
pub struct KiteScenario {
    pub name: String,
    pub z: u8,
    pub default_wp: u16,
    pub arena_center: (u16, u16),
    pub arena_radius: u16,
    pub player_start: (u16, u16),
    pub player_name: String,
    pub monsters: Vec<MonsterSpawn>,
    pub monster_speed: i32,
    pub monster_speed_from_scenario: bool,
    pub monster_hostile: bool,
    pub monster_melee_skill: i32,
    pub monster_melee_attack: i32,
    pub monster_armor: i32,
    pub monster_defense: i32,
    pub monster_target_distance: i32,
    pub monster_talks: u8,
    pub monster_load_type: bool,
    pub monster_initial_state: MonsterState,
    pub monster_state_explicit: bool,
    pub arena_synthetic: bool,
    pub steps: Vec<ScenarioStep>,
}

/// A kite scenario as plain values: texts as character sequences.
pub struct ScenarioView {
    pub name: Seq<char>,
    pub z: u8,
    pub default_wp: u16,
    pub arena_center: (u16, u16),
    pub arena_radius: u16,
    pub player_start: (u16, u16),
    pub player_name: Seq<char>,
    pub monsters: Seq<(Seq<char>, (u16, u16))>,
    pub monster_speed: i32,
    pub monster_speed_from_scenario: bool,
    pub monster_hostile: bool,
    pub monster_melee_skill: i32,
    pub monster_melee_attack: i32,
    pub monster_armor: i32,
    pub monster_defense: i32,
    pub monster_target_distance: i32,
    pub monster_talks: u8,
    pub monster_load_type: bool,
    pub monster_initial_state: MonsterState,
    pub monster_state_explicit: bool,
    pub arena_synthetic: bool,
    pub steps: Seq<ScenarioStep>,
}

impl View for KiteScenario {
    type V = ScenarioView;

    open spec fn view(&self) -> ScenarioView {
        ScenarioView {
            name: self.name@,
            z: self.z,
            default_wp: self.default_wp,
            arena_center: self.arena_center,
            arena_radius: self.arena_radius,
            player_start: self.player_start,
            player_name: self.player_name@,
            monsters: self.monsters@.map_values(|m: MonsterSpawn| (m.label@, m.pos)),
            monster_speed: self.monster_speed,
            monster_speed_from_scenario: self.monster_speed_from_scenario,
            monster_hostile: self.monster_hostile,
            monster_melee_skill: self.monster_melee_skill,
            monster_melee_attack: self.monster_melee_attack,
            monster_armor: self.monster_armor,
            monster_defense: self.monster_defense,
            monster_target_distance: self.monster_target_distance,
            monster_talks: self.monster_talks,
            monster_load_type: self.monster_load_type,
            monster_initial_state: self.monster_initial_state,
            monster_state_explicit: self.monster_state_explicit,
            arena_synthetic: self.arena_synthetic,
            steps: self.steps@,
        }
    }
}

/// The scenario before any line: arena and player at (32360, 32290) on floor 7,
/// arena radius 5, default waypoint cost 150, player "Hero", monsters of speed 200,
/// hostile, melee skill 0 and attack 7, armor 1, defense 3, target distance 1, silent,
/// loaded from their type, asleep; no name, spawns or steps.
pub open spec fn scenario_start() -> ScenarioView {
    ScenarioView {
        name: Seq::empty(),
        z: 7,
        default_wp: 150,
        arena_center: (32360, 32290),
        arena_radius: 5,
        player_start: (32360, 32290),
        player_name: "Hero"@,
        monsters: Seq::empty(),
        monster_speed: 200,
        monster_speed_from_scenario: false,
        monster_hostile: true,
        monster_melee_skill: 0,
        monster_melee_attack: 7,
        monster_armor: 1,
        monster_defense: 3,
        monster_target_distance: 1,
        monster_talks: 0,
        monster_load_type: true,
        monster_initial_state: MonsterState::Sleeping,
        monster_state_explicit: false,
        arena_synthetic: false,
        steps: Seq::empty(),
    }
}

/// `Ok` of the parsed number, or `Err(msg)`.
pub open spec fn number_or(w: Seq<char>, lo: int, hi: int, msg: Seq<char>) -> Result<int, Seq<char>> {
    match parse_number(w, lo, hi) {
        Some(v) => Ok(v),
        None => Err(msg),
    }
}

/// A verb that sets up the arena or the player: `None` when `ws` is no such verb with
/// enough arguments.
pub open spec fn setup_verb(m: ScenarioView, ws: Seq<Seq<char>>) -> Option<Result<ScenarioView, Seq<char>>> {
    let k = ws[0];
    if k == "name"@ && ws.len() >= 2 {
        Some(Ok(ScenarioView { name: ws[1], ..m }))
    } else if k == "z"@ && ws.len() >= 2 {
        Some(match number_or(ws[1], 0, 0xff, "bad z"@) {
            Ok(v) => Ok(ScenarioView { z: v as u8, ..m }),
            Err(e) => Err(e),
        })
    } else if k == "default_wp"@ && ws.len() >= 2 {
        Some(match number_or(ws[1], 0, 0xffff, "bad default_wp"@) {
            Ok(v) => Ok(ScenarioView { default_wp: v as u16, ..m }),
            Err(e) => Err(e),
        })
    } else if k == "arena"@ && ws.len() >= 4 {
        Some(match number_or(ws[1], 0, 0xffff, "bad arena x"@) {
            Ok(x) => match number_or(ws[2], 0, 0xffff, "bad arena y"@) {
                Ok(y) => match number_or(ws[3], 0, 0xffff, "bad arena radius"@) {
                    Ok(r) => Ok(ScenarioView { arena_center: (x as u16, y as u16), arena_radius: r as u16, ..m }),
                    Err(e) => Err(e),
                },
                Err(e) => Err(e),
            },
            Err(e) => Err(e),
        })
    } else if k == "arena_synthetic"@ && ws.len() >= 2 {
        Some(Ok(ScenarioView { arena_synthetic: ws[1] != "0"@, ..m }))
    } else if k == "player_start"@ && ws.len() >= 3 {
        Some(match number_or(ws[1], 0, 0xffff, "bad player_start x"@) {
            Ok(x) => match number_or(ws[2], 0, 0xffff, "bad player_start y"@) {
                Ok(y) => Ok(ScenarioView { player_start: (x as u16, y as u16), ..m }),
                Err(e) => Err(e),
            },
            Err(e) => Err(e),
        })
    } else if k == "player_name"@ && ws.len() >= 2 {
        Some(Ok(ScenarioView { player_name: ws[1], ..m }))
    } else {
        None
    }
}

/// A verb that sets up the monsters: `None` when `ws` is no such verb with enough
/// arguments.
pub open spec fn monster_verb(m: ScenarioView, ws: Seq<Seq<char>>) -> Option<Result<ScenarioView, Seq<char>>> {
    let k = ws[0];
    let i32_lo = -0x8000_0000int;
    let i32_hi = 0x7fff_ffffint;
    if k == "monster"@ && ws.len() >= 4 {
        Some(match number_or(ws[2], 0, 0xffff, "bad monster x"@) {
            Ok(x) => match number_or(ws[3], 0, 0xffff, "bad monster y"@) {
                Ok(y) => Ok(ScenarioView { monsters: m.monsters.push((ws[1], (x as u16, y as u16))), ..m }),
                Err(e) => Err(e),
            },
            Err(e) => Err(e),
        })
    } else if k == "monster_hostile"@ && ws.len() >= 2 {
        Some(Ok(ScenarioView { monster_hostile: ws[1] != "0"@, ..m }))
    } else if k == "monster_melee_skill"@ && ws.len() >= 2 {
        Some(match number_or(ws[1], i32_lo, i32_hi, "bad monster_melee_skill"@) {
            Ok(v) => Ok(ScenarioView { monster_melee_skill: v as i32, ..m }),
            Err(e) => Err(e),
        })
    } else if k == "monster_melee_attack"@ && ws.len() >= 2 {
        Some(match number_or(ws[1], i32_lo, i32_hi, "bad monster_melee_attack"@) {
            Ok(v) => Ok(ScenarioView { monster_melee_attack: v as i32, ..m }),
            Err(e) => Err(e),
        })
    } else if k == "monster_armor"@ && ws.len() >= 2 {
        Some(match number_or(ws[1], i32_lo, i32_hi, "bad monster_armor"@) {
            Ok(v) => Ok(ScenarioView { monster_armor: v as i32, ..m }),
            Err(e) => Err(e),
        })
    } else if k == "monster_defense"@ && ws.len() >= 2 {
        Some(match number_or(ws[1], i32_lo, i32_hi, "bad monster_defense"@) {
            Ok(v) => Ok(ScenarioView { monster_defense: v as i32, ..m }),
            Err(e) => Err(e),
        })
    } else if k == "monster_target_distance"@ && ws.len() >= 2 {
        Some(match number_or(ws[1], i32_lo, i32_hi, "bad target_distance"@) {
            Ok(v) => Ok(ScenarioView { monster_target_distance: v as i32, ..m }),
            Err(e) => Err(e),
        })
    } else if k == "monster_speed"@ && ws.len() >= 2 {
        Some(match number_or(ws[1], i32_lo, i32_hi, "bad monster_speed"@) {
            Ok(v) => Ok(ScenarioView { monster_speed: v as i32, monster_speed_from_scenario: true, ..m }),
            Err(e) => Err(e),
        })
    } else if k == "monster_talks"@ && ws.len() >= 2 {
        Some(match number_or(ws[1], 0, 0xff, "bad monster_talks"@) {
            Ok(v) => Ok(ScenarioView { monster_talks: v as u8, ..m }),
            Err(e) => Err(e),
        })
    } else if k == "monster_load_type"@ && ws.len() >= 2 {
        Some(Ok(ScenarioView { monster_load_type: ws[1] != "0"@, ..m }))
    } else if k == "monster_state"@ && ws.len() >= 2 {
        Some(match named_monster_state(ws[1]) {
            Some(st) => Ok(ScenarioView { monster_initial_state: st, monster_state_explicit: true, ..m }),
            None => Err("unknown monster_state: "@ + ascii_lower(ws[1])),
        })
    } else {
        None
    }
}

/// A verb that adds a script step: `None` when `ws` is no such verb with enough
/// arguments.
pub open spec fn step_verb(m: ScenarioView, ws: Seq<Seq<char>>) -> Option<Result<ScenarioView, Seq<char>>> {
    let k = ws[0];
    let i32_lo = -0x8000_0000int;
    let i32_hi = 0x7fff_ffffint;
    if k == "advance_ms"@ && ws.len() >= 2 {
        Some(match number_or(ws[1], 0, 0xffff_ffff_ffff_ffff, "bad advance_ms"@) {
            Ok(v) => Ok(ScenarioView { steps: m.steps.push(ScenarioStep::AdvanceMs(v as u64)), ..m }),
            Err(e) => Err(e),
        })
    } else if k == "monster_appear"@ {
        Some(Ok(ScenarioView { steps: m.steps.push(ScenarioStep::MonsterAppear), ..m }))
    } else if k == "player_pos"@ && ws.len() >= 3 {
        Some(match number_or(ws[1], 0, 0xffff, "bad player_pos x"@) {
            Ok(x) => match number_or(ws[2], 0, 0xffff, "bad player_pos y"@) {
                Ok(y) => Ok(ScenarioView { steps: m.steps.push(ScenarioStep::PlayerPos(x as u16, y as u16)), ..m }),
                Err(e) => Err(e),
            },
            Err(e) => Err(e),
        })
    } else if k == "sim_tick"@ {
        Some(Ok(ScenarioView { steps: m.steps.push(ScenarioStep::SimTick), ..m }))
    } else if k == "player_damage"@ && ws.len() >= 2 {
        Some(match number_or(ws[1], i32_lo, i32_hi, "bad player_damage"@) {
            Ok(v) => Ok(ScenarioView { steps: m.steps.push(ScenarioStep::PlayerDamage(v as i32)), ..m }),
            Err(e) => Err(e),
        })
    } else if k == "player_damage_monster"@ && ws.len() >= 3 {
        Some(match number_or(ws[1], 0, usize::MAX as int, "bad player_damage_monster idx"@) {
            Ok(i) => match number_or(ws[2], i32_lo, i32_hi, "bad player_damage_monster amount"@) {
                Ok(v) => Ok(ScenarioView { steps: m.steps.push(ScenarioStep::PlayerDamageMonster(i as usize, v as i32)), ..m }),
                Err(e) => Err(e),
            },
            Err(e) => Err(e),
        })
    } else {
        None
    }
}

/// The scenario after one line with words `ws`; a line without words, or whose first
/// word starts with `#`, changes nothing; an unknown verb is an error.
pub open spec fn apply_words(m: ScenarioView, ws: Seq<Seq<char>>) -> Result<ScenarioView, Seq<char>> {
    if ws.len() == 0 || ws[0][0] == '#' {
        Ok(m)
    } else {
        match setup_verb(m, ws) {
            Some(r) => r,
            None => match monster_verb(m, ws) {
                Some(r) => r,
                None => match step_verb(m, ws) {
                    Some(r) => r,
                    None => Err("unknown scenario verb: "@ + ws[0]),
                },
            },
        }
    }
}

/// The scenario after the lines `ls`, in order; the first error stops it.
pub open spec fn apply_lines(ls: Seq<Seq<char>>) -> Result<ScenarioView, Seq<char>>
    decreases ls.len(),
{
    if ls.len() == 0 {
        Ok(scenario_start())
    } else {
        match apply_lines(ls.drop_last()) {
            Ok(m) => apply_words(m, words(ls.last())),
            Err(e) => Err(e),
        }
    }
}

/// The scenario that the script `input` describes, or the error that `parse_scenario`
/// reports: the first bad line, else a missing name, monster or step.
pub open spec fn scenario_of(input: Seq<char>) -> Result<ScenarioView, Seq<char>> {
    match apply_lines(split_lines(input)) {
        Ok(m) => if m.name.len() == 0 {
            Err("missing scenario name"@)
        } else if m.monsters.len() == 0 {
            Err("scenario has no monster spawn(s) — add one or more `monster <label> x y` lines"@)
        } else if m.steps.len() == 0 {
            Err("scenario has no script steps"@)
        } else {
            Ok(m)
        },
        Err(e) => Err(e),
    }
}

/// The words of a line as index ranges into the characters of the script.
pub open spec fn spans_are_words(chars: Seq<char>, spans: Seq<(usize, usize)>, ws: Seq<Seq<char>>) -> bool {
    &&& spans.len() == ws.len()
    &&& forall|k: int| 0 <= k < spans.len() ==> (#[trigger] spans[k]).0 <= spans[k].1 <= chars.len()
        && chars.subrange(spans[k].0 as int, spans[k].1 as int) == ws[k]
}

/// `number_or` of word `k` as a result with a `String` error.
fn word_number(chars: &Vec<char>, spans: &Vec<(usize, usize)>, k: usize, lo: i128, hi: i128, msg: &str,
    Ghost(ws): Ghost<Seq<Seq<char>>>) -> (r: Result<i128, String>)
    requires
        spans_are_words(chars@, spans@, ws),
        k < ws.len(),
        -0x1_0000_0000_0000_0000 < lo <= 0 < hi < 0x1_0000_0000_0000_0000,
    ensures
        match number_or(ws[k as int], lo as int, hi as int, msg@) {
            Ok(v) => r == Ok::<i128, String>(v as i128),
            Err(e) => r is Err && r->Err_0@ == e,
        },
{
    let (a, b) = spans[k];
    match parse_span(chars, a, b, lo, hi) {
        Some(v) => Ok(v),
        None => Err(String::from_str(msg)),
    }
}

/// Word `k` as a `String`.
pub(crate) fn word_string(input: &str, spans: &Vec<(usize, usize)>, k: usize, Ghost(ws): Ghost<Seq<Seq<char>>>) -> (r: String)
    requires
        spans_are_words(input@, spans@, ws),
        k < ws.len(),
    ensures
        r@ == ws[k as int],
{
    let (a, b) = spans[k];
    String::from_str(input.substring_char(a, b))
}

/// Whether word `k` is the text `lit`.
pub(crate) fn word_is(chars: &Vec<char>, spans: &Vec<(usize, usize)>, k: usize, lit: &str, Ghost(ws): Ghost<Seq<Seq<char>>>) -> (r: bool)
    requires
        spans_are_words(chars@, spans@, ws),
        k < ws.len(),
    ensures
        r == (ws[k as int] == lit@),
{
    let (a, b) = spans[k];
    span_is(chars, a, b, lit)
}

impl KiteScenario {
    /// The scenario before any line (see `scenario_start`).
    pub fn start() -> (s: KiteScenario)
        ensures
            s@ == scenario_start(),
    {
        let s = KiteScenario {
            name: String::new(),
            z: 7,
            default_wp: 150,
            arena_center: (32360, 32290),
            arena_radius: 5,
            player_start: (32360, 32290),
            player_name: String::from_str("Hero"),
            monsters: Vec::new(),
            monster_speed: 200,
            monster_speed_from_scenario: false,
            monster_hostile: true,
            monster_melee_skill: 0,
            monster_melee_attack: 7,
            monster_armor: 1,
            monster_defense: 3,
            monster_target_distance: 1,
            monster_talks: 0,
            monster_load_type: true,
            monster_initial_state: MonsterState::Sleeping,
            monster_state_explicit: false,
            arena_synthetic: false,
            steps: Vec::new(),
        };
        assert(s@.monsters =~= Seq::<(Seq<char>, (u16, u16))>::empty());
        s
    }

    /// Applies a set-up verb (see `setup_verb`).
    fn setup_line(&mut self, input: &str, chars: &Vec<char>, spans: &Vec<(usize, usize)>,
        Ghost(ws): Ghost<Seq<Seq<char>>>) -> (r: Option<Result<(), String>>)
        requires
            chars@ == input@,
            spans_are_words(chars@, spans@, ws),
            ws.len() >= 1,
        ensures
            match setup_verb(old(self)@, ws) {
                None => r is None && final(self)@ == old(self)@,
                Some(Ok(m)) => r matches Some(Ok(_)) && final(self)@ == m,
                Some(Err(e)) => r matches Some(Err(msg)) && msg@ == e,
            },
    {
        let n = spans.len();
        let u16_max: i128 = 0xffff;
        if word_is(chars, spans, 0, "name", Ghost(ws)) && n >= 2 {
            self.name = word_string(input, spans, 1, Ghost(ws));
            Some(Ok(()))
        } else if word_is(chars, spans, 0, "z", Ghost(ws)) && n >= 2 {
            match word_number(chars, spans, 1, 0, 0xff, "bad z", Ghost(ws)) {
                Ok(v) => {
                    self.z = v as u8;
                    Some(Ok(()))
                },
                Err(e) => Some(Err(e)),
            }
        } else if word_is(chars, spans, 0, "default_wp", Ghost(ws)) && n >= 2 {
            match word_number(chars, spans, 1, 0, u16_max, "bad default_wp", Ghost(ws)) {
                Ok(v) => {
                    self.default_wp = v as u16;
                    Some(Ok(()))
                },
                Err(e) => Some(Err(e)),
            }
        } else if word_is(chars, spans, 0, "arena", Ghost(ws)) && n >= 4 {
            let x = match word_number(chars, spans, 1, 0, u16_max, "bad arena x", Ghost(ws)) {
                Ok(v) => v,
                Err(e) => return Some(Err(e)),
            };
            let y = match word_number(chars, spans, 2, 0, u16_max, "bad arena y", Ghost(ws)) {
                Ok(v) => v,
                Err(e) => return Some(Err(e)),
            };
            let r = match word_number(chars, spans, 3, 0, u16_max, "bad arena radius", Ghost(ws)) {
                Ok(v) => v,
                Err(e) => return Some(Err(e)),
            };
            self.arena_center = (x as u16, y as u16);
            self.arena_radius = r as u16;
            Some(Ok(()))
        } else if word_is(chars, spans, 0, "arena_synthetic", Ghost(ws)) && n >= 2 {
            self.arena_synthetic = !word_is(chars, spans, 1, "0", Ghost(ws));
            Some(Ok(()))
        } else if word_is(chars, spans, 0, "player_start", Ghost(ws)) && n >= 3 {
            let x = match word_number(chars, spans, 1, 0, u16_max, "bad player_start x", Ghost(ws)) {
                Ok(v) => v,
                Err(e) => return Some(Err(e)),
            };
            let y = match word_number(chars, spans, 2, 0, u16_max, "bad player_start y", Ghost(ws)) {
                Ok(v) => v,
                Err(e) => return Some(Err(e)),
            };
            self.player_start = (x as u16, y as u16);
            Some(Ok(()))
        } else if word_is(chars, spans, 0, "player_name", Ghost(ws)) && n >= 2 {
            self.player_name = word_string(input, spans, 1, Ghost(ws));
            Some(Ok(()))
        } else {
            None
        }
    }

    /// Applies a monster set-up verb (see `monster_verb`).
    fn monster_line(&mut self, input: &str, chars: &Vec<char>, spans: &Vec<(usize, usize)>,
        Ghost(ws): Ghost<Seq<Seq<char>>>) -> (r: Option<Result<(), String>>)
        requires
            chars@ == input@,
            spans_are_words(chars@, spans@, ws),
            ws.len() >= 1,
        ensures
            match monster_verb(old(self)@, ws) {
                None => r is None && final(self)@ == old(self)@,
                Some(Ok(m)) => r matches Some(Ok(_)) && final(self)@ == m,
                Some(Err(e)) => r matches Some(Err(msg)) && msg@ == e,
            },
    {
        let n = spans.len();
        let u16_max: i128 = 0xffff;
        let i32_lo: i128 = -0x8000_0000;
        let i32_hi: i128 = 0x7fff_ffff;
        if word_is(chars, spans, 0, "monster", Ghost(ws)) && n >= 4 {
            let label = word_string(input, spans, 1, Ghost(ws));
            let x = match word_number(chars, spans, 2, 0, u16_max, "bad monster x", Ghost(ws)) {
                Ok(v) => v,
                Err(e) => return Some(Err(e)),
            };
            let y = match word_number(chars, spans, 3, 0, u16_max, "bad monster y", Ghost(ws)) {
                Ok(v) => v,
                Err(e) => return Some(Err(e)),
            };
            let ghost old_monsters = self.monsters@;
            let spawn = MonsterSpawn { label, pos: (x as u16, y as u16) };
            self.monsters.push(spawn);
            proof {
                assert(self.monsters@.map_values(|m: MonsterSpawn| (m.label@, m.pos))
                    =~= old_monsters.map_values(|m: MonsterSpawn| (m.label@, m.pos)).push((ws[1], (x as u16, y as u16))));
            }
            Some(Ok(()))
        } else if word_is(chars, spans, 0, "monster_hostile", Ghost(ws)) && n >= 2 {
            self.monster_hostile = !word_is(chars, spans, 1, "0", Ghost(ws));
            Some(Ok(()))
        } else if word_is(chars, spans, 0, "monster_melee_skill", Ghost(ws)) && n >= 2 {
            match word_number(chars, spans, 1, i32_lo, i32_hi, "bad monster_melee_skill", Ghost(ws)) {
                Ok(v) => {
                    self.monster_melee_skill = v as i32;
                    Some(Ok(()))
                },
                Err(e) => Some(Err(e)),
            }
        } else if word_is(chars, spans, 0, "monster_melee_attack", Ghost(ws)) && n >= 2 {
            match word_number(chars, spans, 1, i32_lo, i32_hi, "bad monster_melee_attack", Ghost(ws)) {
                Ok(v) => {
                    self.monster_melee_attack = v as i32;
                    Some(Ok(()))
                },
                Err(e) => Some(Err(e)),
            }
        } else if word_is(chars, spans, 0, "monster_armor", Ghost(ws)) && n >= 2 {
            match word_number(chars, spans, 1, i32_lo, i32_hi, "bad monster_armor", Ghost(ws)) {
                Ok(v) => {
                    self.monster_armor = v as i32;
                    Some(Ok(()))
                },
                Err(e) => Some(Err(e)),
            }
        } else if word_is(chars, spans, 0, "monster_defense", Ghost(ws)) && n >= 2 {
            match word_number(chars, spans, 1, i32_lo, i32_hi, "bad monster_defense", Ghost(ws)) {
                Ok(v) => {
                    self.monster_defense = v as i32;
                    Some(Ok(()))
                },
                Err(e) => Some(Err(e)),
            }
        } else if word_is(chars, spans, 0, "monster_target_distance", Ghost(ws)) && n >= 2 {
            match word_number(chars, spans, 1, i32_lo, i32_hi, "bad target_distance", Ghost(ws)) {
                Ok(v) => {
                    self.monster_target_distance = v as i32;
                    Some(Ok(()))
                },
                Err(e) => Some(Err(e)),
            }
        } else if word_is(chars, spans, 0, "monster_speed", Ghost(ws)) && n >= 2 {
            match word_number(chars, spans, 1, i32_lo, i32_hi, "bad monster_speed", Ghost(ws)) {
                Ok(v) => {
                    self.monster_speed = v as i32;
                    self.monster_speed_from_scenario = true;
                    Some(Ok(()))
                },
                Err(e) => Some(Err(e)),
            }
        } else if word_is(chars, spans, 0, "monster_talks", Ghost(ws)) && n >= 2 {
            match word_number(chars, spans, 1, 0, 0xff, "bad monster_talks", Ghost(ws)) {
                Ok(v) => {
                    self.monster_talks = v as u8;
                    Some(Ok(()))
                },
                Err(e) => Some(Err(e)),
            }
        } else if word_is(chars, spans, 0, "monster_load_type", Ghost(ws)) && n >= 2 {
            self.monster_load_type = !word_is(chars, spans, 1, "0", Ghost(ws));
            Some(Ok(()))
        } else if word_is(chars, spans, 0, "monster_state", Ghost(ws)) && n >= 2 {
            let (a, b) = spans[1];
            match parse_monster_state(input.substring_char(a, b)) {
                Ok(st) => {
                    self.monster_initial_state = st;
                    self.monster_state_explicit = true;
                    Some(Ok(()))
                },
                Err(e) => Some(Err(e)),
            }
        } else {
            None
        }
    }

    /// Applies a script-step verb (see `step_verb`).
    fn step_line(&mut self, chars: &Vec<char>, spans: &Vec<(usize, usize)>,
        Ghost(ws): Ghost<Seq<Seq<char>>>) -> (r: Option<Result<(), String>>)
        requires
            spans_are_words(chars@, spans@, ws),
            ws.len() >= 1,
        ensures
            match step_verb(old(self)@, ws) {
                None => r is None && final(self)@ == old(self)@,
                Some(Ok(m)) => r matches Some(Ok(_)) && final(self)@ == m,
                Some(Err(e)) => r matches Some(Err(msg)) && msg@ == e,
            },
    {
        let n = spans.len();
        let u16_max: i128 = 0xffff;
        let i32_lo: i128 = -0x8000_0000;
        let i32_hi: i128 = 0x7fff_ffff;
        if word_is(chars, spans, 0, "advance_ms", Ghost(ws)) && n >= 2 {
            match word_number(chars, spans, 1, 0, 0xffff_ffff_ffff_ffff, "bad advance_ms", Ghost(ws)) {
                Ok(v) => {
                    self.steps.push(ScenarioStep::AdvanceMs(v as u64));
                    Some(Ok(()))
                },
                Err(e) => Some(Err(e)),
            }
        } else if word_is(chars, spans, 0, "monster_appear", Ghost(ws)) {
            self.steps.push(ScenarioStep::MonsterAppear);
            Some(Ok(()))
        } else if word_is(chars, spans, 0, "player_pos", Ghost(ws)) && n >= 3 {
            let x = match word_number(chars, spans, 1, 0, u16_max, "bad player_pos x", Ghost(ws)) {
                Ok(v) => v,
                Err(e) => return Some(Err(e)),
            };
            let y = match word_number(chars, spans, 2, 0, u16_max, "bad player_pos y", Ghost(ws)) {
                Ok(v) => v,
                Err(e) => return Some(Err(e)),
            };
            self.steps.push(ScenarioStep::PlayerPos(x as u16, y as u16));
            Some(Ok(()))
        } else if word_is(chars, spans, 0, "sim_tick", Ghost(ws)) {
            self.steps.push(ScenarioStep::SimTick);
            Some(Ok(()))
        } else if word_is(chars, spans, 0, "player_damage", Ghost(ws)) && n >= 2 {
            match word_number(chars, spans, 1, i32_lo, i32_hi, "bad player_damage", Ghost(ws)) {
                Ok(v) => {
                    self.steps.push(ScenarioStep::PlayerDamage(v as i32));
                    Some(Ok(()))
                },
                Err(e) => Some(Err(e)),
            }
        } else if word_is(chars, spans, 0, "player_damage_monster", Ghost(ws)) && n >= 3 {
            let idx = match word_number(chars, spans, 1, 0, usize::MAX as i128, "bad player_damage_monster idx", Ghost(ws)) {
                Ok(v) => v,
                Err(e) => return Some(Err(e)),
            };
            let amount = match word_number(chars, spans, 2, i32_lo, i32_hi, "bad player_damage_monster amount", Ghost(ws)) {
                Ok(v) => v,
                Err(e) => return Some(Err(e)),
            };
            self.steps.push(ScenarioStep::PlayerDamageMonster(idx as usize, amount as i32));
            Some(Ok(()))
        } else {
            None
        }
    }

    /// Applies one line with the given words (see `apply_words`).
    fn apply_line(&mut self, input: &str, chars: &Vec<char>, spans: &Vec<(usize, usize)>,
        Ghost(ws): Ghost<Seq<Seq<char>>>) -> (r: Result<(), String>)
        requires
            chars@ == input@,
            spans_are_words(chars@, spans@, ws),
            forall|k: int| 0 <= k < ws.len() ==> (#[trigger] ws[k]).len() > 0,
        ensures
            match apply_words(old(self)@, ws) {
                Ok(m) => r is Ok && final(self)@ == m,
                Err(e) => r is Err && r->Err_0@ == e,
            },
    {
        if spans.len() == 0 {
            return Ok(());
        }
        let (a, _) = spans[0];
        proof {
            assert(ws[0].len() > 0);
            assert(ws[0][0] == chars@[a as int]);
        }
        if chars[a] == '#' {
            return Ok(());
        }
        match self.setup_line(input, chars, spans, Ghost(ws)) {
            Some(Ok(())) => return Ok(()),
            Some(Err(e)) => return Err(e),
            None => {},
        }
        match self.monster_line(input, chars, spans, Ghost(ws)) {
            Some(Ok(())) => return Ok(()),
            Some(Err(e)) => return Err(e),
            None => {},
        }
        match self.step_line(chars, spans, Ghost(ws)) {
            Some(Ok(())) => Ok(()),
            Some(Err(e)) => Err(e),
            None => {
                let mut msg = String::from_str("unknown scenario verb: ");
                let verb = word_string(input, spans, 0, Ghost(ws));
                msg.append(verb.as_str());
                Err(msg)
            },
        }
    }
}

/// Lines of a prefix of the text are lines of the whole text, but for the last one,
/// which may still grow.
proof fn lemma_split_lines_prefix(s: Seq<char>, i: int, j: int)
    requires
        0 <= i <= j <= s.len(),
    ensures
        split_lines(s.subrange(0, j)).len() >= split_lines(s.subrange(0, i)).len(),
        forall|k: int| 0 <= k < split_lines(s.subrange(0, i)).len() - 1
            ==> split_lines(s.subrange(0, j))[k] == #[trigger] split_lines(s.subrange(0, i))[k],
    decreases j - i,
{
    lemma_split_lines_nonempty(s.subrange(0, i));
    if i < j {
        lemma_split_lines_prefix(s, i, j - 1);
        let p = s.subrange(0, j - 1);
        assert(s.subrange(0, j).drop_last() =~= p);
        lemma_split_lines_nonempty(p);
    }
}

/// Once a line fails, more lines leave the same error.
proof fn lemma_apply_lines_err(p: Seq<Seq<char>>, q: Seq<Seq<char>>, e: Seq<char>)
    requires
        p.len() <= q.len(),
        q.subrange(0, p.len() as int) == p,
        apply_lines(p) == Err::<ScenarioView, Seq<char>>(e),
    ensures
        apply_lines(q) == Err::<ScenarioView, Seq<char>>(e),
    decreases q.len() - p.len(),
{
    if p.len() < q.len() {
        let q1 = q.drop_last();
        assert(q1.subrange(0, p.len() as int) =~= p);
        lemma_apply_lines_err(p, q1, e);
    } else {
        assert(q =~= p);
    }
}

/// A text that ends inside a word has a word.
proof fn lemma_words_some(t: Seq<char>)
    requires
        t.len() > 0,
        !is_white(t.last()),
    ensures
        words(t).len() >= 1,
    decreases t.len(),
{
    if t.len() >= 2 && !is_white(t[t.len() - 2]) {
        let u = t.drop_last();
        assert(u.last() == t[t.len() - 2]);
        lemma_words_some(u);
    }
}

/// Every word is nonempty.
pub(crate) proof fn lemma_words_nonempty(s: Seq<char>)
    ensures
        forall|k: int| 0 <= k < words(s).len() ==> (#[trigger] words(s)[k]).len() > 0,
    decreases s.len(),
{
    if s.len() > 0 {
        let u = s.drop_last();
        lemma_words_nonempty(u);
        if s.len() >= 2 && !is_white(s[s.len() - 2]) {
            assert(u.last() == s[s.len() - 2]);
            lemma_words_some(u);
        }
    }
}

/// Parses a kite scenario script: see `scenario_of` for what it gives on each text.
pub fn parse_scenario(input: &str) -> (r: Result<KiteScenario, String>)
    ensures
        match scenario_of(input@) {
            Ok(m) => r is Ok && r->Ok_0@ == m,
            Err(e) => r is Err && r->Err_0@ == e,
        },
{
    let chars = chars_of(input);
    let n = chars.len();
    let mut s = KiteScenario::start();
    let mut ls: usize = 0;
    let mut i: usize = 0;
    proof {
        assert(chars@.subrange(0, 0) =~= Seq::<char>::empty());
    }
    while i < n
        invariant
            chars@ == input@,
            n == chars@.len(),
            ls <= i <= n,
            split_lines(chars@.subrange(0, i as int)).len() >= 1,
            split_lines(chars@.subrange(0, i as int)).last() == chars@.subrange(ls as int, i as int),
            apply_lines(split_lines(chars@.subrange(0, i as int)).drop_last()) == Ok::<ScenarioView, Seq<char>>(s@),
        decreases n - i,
    {
        let ghost pre = chars@.subrange(0, i as int);
        let ghost cur = chars@.subrange(0, i + 1);
        proof {
            assert(cur.drop_last() =~= pre);
            assert(cur.last() == chars@[i as int]);
            lemma_split_lines_nonempty(pre);
        }
        if chars[i] == '\n' {
            let spans = word_spans(&chars, ls, i);
            let ghost line = chars@.subrange(ls as int, i as int);
            proof {
                lemma_words_nonempty(line);
                assert(split_lines(pre).drop_last().push(split_lines(pre).last()) =~= split_lines(pre));
            }
            match s.apply_line(input, &chars, &spans, Ghost(words(line))) {
                Ok(()) => {},
                Err(e) => {
                    proof {
                        let full = split_lines(chars@);
                        lemma_split_lines_prefix(chars@, i + 1, n as int);
                        assert(chars@.subrange(0, n as int) =~= chars@);
                        assert(split_lines(cur) =~= split_lines(pre).push(Seq::empty()));
                        assert forall|k: int| 0 <= k < split_lines(pre).len() implies
                            full.subrange(0, split_lines(pre).len() as int)[k] == split_lines(pre)[k] by {
                            assert(split_lines(cur)[k] == split_lines(pre)[k]);
                        }
                        assert(full.subrange(0, split_lines(pre).len() as int) =~= split_lines(pre));
                        lemma_apply_lines_err(split_lines(pre), full, e@);
                    }
                    return Err(e);
                },
            }
            ls = i + 1;
            proof {
                assert(split_lines(cur) =~= split_lines(pre).push(Seq::empty()));
                assert(split_lines(cur).drop_last() =~= split_lines(pre));
                assert(chars@.subrange(ls as int, i + 1) =~= Seq::<char>::empty());
            }
        } else {
            proof {
                assert(chars@.subrange(ls as int, i + 1) =~= chars@.subrange(ls as int, i as int).push(chars@[i as int]));
                assert(split_lines(cur).drop_last() =~= split_lines(pre).drop_last());
            }
        }
        i = i + 1;
    }
    let spans = word_spans(&chars, ls, n);
    let ghost line = chars@.subrange(ls as int, n as int);
    proof {
        lemma_words_nonempty(line);
        assert(chars@.subrange(0, n as int) =~= chars@);
        let ls_all = split_lines(chars@);
        assert(ls_all.drop_last().push(ls_all.last()) =~= ls_all);
    }
    match s.apply_line(input, &chars, &spans, Ghost(words(line))) {
        Ok(()) => {},
        Err(e) => return Err(e),
    }
    if s.name.as_str().is_empty() {
        return Err(String::from_str("missing scenario name"));
    }
    if s.monsters.len() == 0 {
        return Err(String::from_str("scenario has no monster spawn(s) — add one or more `monster <label> x y` lines"));
    }
    if s.steps.len() == 0 {
        return Err(String::from_str("scenario has no script steps"));
    }
    Ok(s)
}

// ---------------------------------------------------------------------------
// Playing the steps
// ---------------------------------------------------------------------------

/// Total game time that the `advance_ms` steps let pass.
pub open spec fn advance_total(steps: Seq<ScenarioStep>) -> nat
    decreases steps.len(),
{
    if steps.len() == 0 {
        0
    } else {
        advance_total(steps.drop_last()) + match steps.last() {
            ScenarioStep::AdvanceMs(ms) => ms as nat,
            _ => 0,
        }
    }
}

/// The wall-clock budget of a script: the sum of its `advance_ms` steps.
pub fn scenario_advance_budget(steps: &[ScenarioStep]) -> (r: u64)
    requires
        advance_total(steps@) <= u64::MAX,
    ensures
        r == advance_total(steps@),
{
    let mut total: u64 = 0;
    let mut i: usize = 0;
    while i < steps.len()
        invariant
            i <= steps@.len(),
            advance_total(steps@) <= u64::MAX,
            total == advance_total(steps@.subrange(0, i as int)),
        decreases steps@.len() - i,
    {
        proof {
            assert(steps@.subrange(0, i + 1).drop_last() =~= steps@.subrange(0, i as int));
            lemma_advance_total_prefix(steps@, i + 1);
        }
        match steps[i] {
            ScenarioStep::AdvanceMs(ms) => {
                total = total + ms;
            },
            _ => {},
        }
        i = i + 1;
    }
    proof {
        assert(steps@.subrange(0, i as int) =~= steps@);
    }
    total
}

/// A prefix of the steps lets no more time pass than all of them.
proof fn lemma_advance_total_prefix(steps: Seq<ScenarioStep>, n: int)
    requires
        0 <= n <= steps.len(),
    ensures
        advance_total(steps.subrange(0, n)) <= advance_total(steps),
    decreases steps.len() - n,
{
    if n < steps.len() {
        lemma_advance_total_prefix(steps, n + 1);
        assert(steps.subrange(0, n + 1).drop_last() =~= steps.subrange(0, n));
    } else {
        assert(steps.subrange(0, n) =~= steps);
    }
}

/// Whether the step after `idx` moves the player.
pub fn step_followed_by_player_pos(steps: &[ScenarioStep], idx: usize) -> (r: bool)
    requires
        idx < usize::MAX,
    ensures
        r == (idx + 1 < steps@.len() && steps@[idx + 1] is PlayerPos),
{
    let next = idx + 1;
    if next < steps.len() {
        match steps[next] {
            ScenarioStep::PlayerPos(_, _) => true,
            _ => false,
        }
    } else {
        false
    }
}

/// Whether the player move at `idx` comes right after an `advance_ms` step, so that the
/// game time passes on the old tile before the teleport.
pub fn player_pos_drains_before_teleport(steps: &[ScenarioStep], idx: usize) -> (r: bool)
    ensures
        r == (1 <= idx <= steps@.len() && steps@[idx - 1] is AdvanceMs
            && idx < steps@.len() && steps@[idx as int] is PlayerPos),
{
    if idx == 0 || idx - 1 >= steps.len() {
        return false;
    }
    match steps[idx - 1] {
        ScenarioStep::AdvanceMs(_) => step_followed_by_player_pos(steps, idx - 1),
        _ => false,
    }
}

/// The tiles a script puts creatures on: the player start, each monster spawn, then
/// each `player_pos` target, all on the scenario floor.
pub open spec fn walk_tiles(m: ScenarioView) -> Seq<Position> {
    seq![Position { x: m.player_start.0, y: m.player_start.1, z: m.z }]
        + m.monsters.map_values(|sp: (Seq<char>, (u16, u16))| Position { x: sp.1.0, y: sp.1.1, z: m.z })
        + pos_step_tiles(m.steps, m.z)
}

/// The targets of the `player_pos` steps, in order, on floor `z`.
pub open spec fn pos_step_tiles(steps: Seq<ScenarioStep>, z: u8) -> Seq<Position>
    decreases steps.len(),
{
    if steps.len() == 0 {
        Seq::empty()
    } else {
        pos_step_tiles(steps.drop_last(), z) + match steps.last() {
            ScenarioStep::PlayerPos(x, y) => seq![Position { x, y, z }],
            _ => Seq::empty(),
        }
    }
}

/// The tiles that must be walkable for the scenario (see `walk_tiles`).
pub fn scenario_walk_positions(scenario: &KiteScenario) -> (r: Vec<Position>)
    ensures
        r@ == walk_tiles(scenario@),
{
    let z = scenario.z;
    let mut out: Vec<Position> = Vec::new();
    out.push(Position::new(scenario.player_start.0, scenario.player_start.1, z));
    let ghost spawns = scenario@.monsters.map_values(|sp: (Seq<char>, (u16, u16))| Position { x: sp.1.0, y: sp.1.1, z: z });
    let mut i: usize = 0;
    while i < scenario.monsters.len()
        invariant
            i <= scenario.monsters@.len(),
            z == scenario.z,
            spawns == scenario@.monsters.map_values(|sp: (Seq<char>, (u16, u16))| Position { x: sp.1.0, y: sp.1.1, z: z }),
            out@ == seq![Position { x: scenario.player_start.0, y: scenario.player_start.1, z: z }]
                + spawns.subrange(0, i as int),
        decreases scenario.monsters@.len() - i,
    {
        let pos = scenario.monsters[i].pos;
        out.push(Position::new(pos.0, pos.1, z));
        i = i + 1;
        assert(out@ =~= seq![Position { x: scenario.player_start.0, y: scenario.player_start.1, z: z }]
            + spawns.subrange(0, i as int));
    }
    let ghost base = out@;
    proof {
        assert(spawns.subrange(0, i as int) =~= spawns);
    }
    let mut j: usize = 0;
    while j < scenario.steps.len()
        invariant
            j <= scenario.steps@.len(),
            z == scenario.z,
            out@ == base + pos_step_tiles(scenario.steps@.subrange(0, j as int), z),
        decreases scenario.steps@.len() - j,
    {
        proof {
            assert(scenario.steps@.subrange(0, j + 1).drop_last() =~= scenario.steps@.subrange(0, j as int));
        }
        match scenario.steps[j] {
            ScenarioStep::PlayerPos(x, y) => {
                out.push(Position::new(x, y, z));
            },
            _ => {},
        }
        j = j + 1;
        assert(out@ =~= base + pos_step_tiles(scenario.steps@.subrange(0, j as int), z));
    }
    proof {
        assert(scenario.steps@.subrange(0, j as int) =~= scenario.steps@);
    }
    out
}

/// What `char::to_uppercase` yields for `c`.
pub uninterp spec fn char_uppercase(c: char) -> Seq<char>;

/// The ASCII upper case of `c`.
pub open spec fn upper_ascii(c: char) -> char {
    if 'a' <= c && c <= 'z' {
        ((c as int) - 32) as char
    } else {
        c
    }
}

/// `char::to_uppercase`, collected into a `String`: the upper-case mapping of `c` (one
/// or more characters; for an ASCII character its ASCII upper case, the only mapping
/// the Unicode tables give it).
#[verifier::external_body]
fn uppercase_string(c: char) -> (r: String)
    ensures
        r@ == char_uppercase(c),
        r@.len() >= 1,
        (c as u32) < 128 ==> r@ == seq![upper_ascii(c)],
{
    c.to_uppercase().collect()
}

/// A monster label with its first character in upper case.
pub open spec fn capitalized(label: Seq<char>) -> Seq<char> {
    if label.len() == 0 {
        Seq::empty()
    } else {
        char_uppercase(label[0]) + label.drop_first()
    }
}

/// `label` with its first character in upper case (`"rat"` becomes `"Rat"`).
pub fn capitalize_monster(label: &str) -> (r: String)
    ensures
        r@ == capitalized(label@),
{
    let n = label.unicode_len();
    if n == 0 {
        return String::new();
    }
    let first = label.get_char(0);
    let mut r = uppercase_string(first);
    let rest = label.substring_char(1, n);
    r.append(rest);
    assert(rest@ =~= label@.drop_first());
    r
}

/// The name a spawned monster gets: its capitalized label, with its 1-based number
/// after a space when the scenario spawns more than one.
pub open spec fn spawn_name(label: Seq<char>, idx: nat, count: nat) -> Seq<char> {
    if count == 1 {
        capitalized(label)
    } else {
        capitalized(label) + " "@ + decimal(idx + 1)
    }
}

/// The name of spawn `idx` of `count` with type `label` (see `spawn_name`).
pub fn monster_spawn_name(label: &str, idx: usize, count: usize) -> (r: String)
    requires
        idx < usize::MAX,
    ensures
        r@ == spawn_name(label@, idx as nat, count as nat),
{
    let mut name = capitalize_monster(label);
    if count != 1 {
        name.append(" ");
        let num = u64_to_decimal((idx + 1) as u64);
        name.append(num.as_str());
    }
    name
}

} // verus!
