//! Path scenarios for comparing chase paths: a name, start and target tiles, the view
//! range, a step budget, the default tile cost, blocked tiles and tiles with their own
//! cost. One setting per line; unreadable numbers take their defaults and unknown lines
//! are skipped.

use vstd::prelude::*;
use vstd::string::*;
use std::collections::{HashMap, HashSet};
use crate::kite_scenario::{
    lemma_split_lines_nonempty, lemma_words_nonempty, split_lines, word_is, word_spans,
    word_string, words, spans_are_words,
};
use crate::text::{chars_of, parse_number, parse_span};

verus! {

broadcast use vstd::std_specs::hash::group_hash_axioms;

/// A path scenario. Tiles are keyed by `tile_key`.
pub struct PathScenario {
    pub name: String,
    pub start: (u16, u16),
    pub target: (u16, u16),
    pub visible: i32,
    pub max_steps: usize,
    pub default_wp: u32,
    pub blocked: HashSet<u32>,
    pub waypoints: HashMap<u32, u32>,
}

/// What a scenario says, as values.
pub struct PathScenarioView {
    pub name: Seq<char>,
    pub start: (u16, u16),
    pub target: (u16, u16),
    pub visible: i32,
    pub max_steps: usize,
    pub default_wp: u32,
    pub blocked: Set<u32>,
    pub waypoints: Map<u32, u32>,
}

impl View for PathScenario {
    type V = PathScenarioView;

    open spec fn view(&self) -> PathScenarioView {
        PathScenarioView {
            name: self.name@,
            start: self.start,
            target: self.target,
            visible: self.visible,
            max_steps: self.max_steps,
            default_wp: self.default_wp,
            blocked: self.blocked@,
            waypoints: self.waypoints@,
        }
    }
}

/// The key of tile `(x, y)`.
pub open spec fn tile_key_of(x: u16, y: u16) -> u32 {
    (x * 65536 + y) as u32
}

pub fn tile_key(x: u16, y: u16) -> (k: u32)
    ensures
        k == tile_key_of(x, y),
{
    (x as u32) * 65536 + y as u32
}

/// The scenario before any line: view range 10, `default_max_steps` steps, tile cost 150.
pub open spec fn path_start(default_max_steps: usize) -> PathScenarioView {
    PathScenarioView {
        name: Seq::empty(),
        start: (0, 0),
        target: (0, 0),
        visible: 10,
        max_steps: default_max_steps,
        default_wp: 150,
        blocked: Set::empty(),
        waypoints: Map::empty(),
    }
}

/// Word `w` as a number of `lo..=hi`, else `d`.
pub open spec fn num_or(w: Seq<char>, lo: int, hi: int, d: int) -> int {
    match parse_number(w, lo, hi) {
        Some(v) => v,
        None => d,
    }
}

pub open spec fn coord(w: Seq<char>) -> u16 {
    num_or(w, 0, u16::MAX as int, 0) as u16
}

/// The scenario after a line with words `ws`.
pub open spec fn apply_path_words(m: PathScenarioView, ws: Seq<Seq<char>>) -> PathScenarioView {
    if ws.len() == 0 || ws[0][0] == '#' {
        m
    } else if ws[0] == "name"@ && ws.len() >= 2 {
        PathScenarioView { name: ws[1], ..m }
    } else if ws[0] == "start"@ && ws.len() >= 3 {
        PathScenarioView { start: (coord(ws[1]), coord(ws[2])), ..m }
    } else if ws[0] == "target"@ && ws.len() >= 3 {
        PathScenarioView { target: (coord(ws[1]), coord(ws[2])), ..m }
    } else if ws[0] == "visible"@ && ws.len() >= 2 {
        PathScenarioView { visible: num_or(ws[1], i32::MIN as int, i32::MAX as int, 10) as i32, ..m }
    } else if ws[0] == "max_steps"@ && ws.len() >= 2 {
        PathScenarioView { max_steps: num_or(ws[1], 0, usize::MAX as int, 3) as usize, ..m }
    } else if ws[0] == "default_wp"@ && ws.len() >= 2 {
        PathScenarioView { default_wp: num_or(ws[1], 0, u32::MAX as int, 150) as u32, ..m }
    } else if ws[0] == "block"@ && ws.len() >= 3 {
        PathScenarioView { blocked: m.blocked.insert(tile_key_of(coord(ws[1]), coord(ws[2]))), ..m }
    } else if ws[0] == "wp"@ && ws.len() >= 4 {
        PathScenarioView {
            waypoints: m.waypoints.insert(tile_key_of(coord(ws[1]), coord(ws[2])),
                num_or(ws[3], 0, u32::MAX as int, 150) as u32),
            ..m
        }
    } else {
        m
    }
}

/// The scenario after the lines `ls`, in order.
pub open spec fn apply_path_lines(ls: Seq<Seq<char>>, default_max_steps: usize) -> PathScenarioView
    decreases ls.len(),
{
    if ls.len() == 0 {
        path_start(default_max_steps)
    } else {
        apply_path_words(apply_path_lines(ls.drop_last(), default_max_steps), words(ls.last()))
    }
}

/// The scenario a text describes.
pub open spec fn path_scenario_of(input: Seq<char>, default_max_steps: usize) -> PathScenarioView {
    apply_path_lines(split_lines(input), default_max_steps)
}

/// Word `k` as a number of `lo..=hi`, else `d`.
fn word_num_or(chars: &Vec<char>, spans: &Vec<(usize, usize)>, k: usize, lo: i128, hi: i128, d: i128,
    Ghost(ws): Ghost<Seq<Seq<char>>>) -> (r: i128)
    requires
        spans_are_words(chars@, spans@, ws),
        k < ws.len(),
        -0x1_0000_0000_0000_0000 < lo <= 0 < hi < 0x1_0000_0000_0000_0000,
    ensures
        r == num_or(ws[k as int], lo as int, hi as int, d as int),
{
    let (a, b) = spans[k];
    match parse_span(chars, a, b, lo, hi) {
        Some(v) => v,
        None => d,
    }
}

fn word_coord(chars: &Vec<char>, spans: &Vec<(usize, usize)>, k: usize, Ghost(ws): Ghost<Seq<Seq<char>>>) -> (r: u16)
    requires
        spans_are_words(chars@, spans@, ws),
        k < ws.len(),
    ensures
        r == coord(ws[k as int]),
{
    word_num_or(chars, spans, k, 0, 0xffff, 0, Ghost(ws)) as u16
}

impl PathScenario {
    pub fn start(default_max_steps: usize) -> (s: PathScenario)
        ensures
            s@ == path_start(default_max_steps),
    {
        let s = PathScenario {
            name: String::new(),
            start: (0, 0),
            target: (0, 0),
            visible: 10,
            max_steps: default_max_steps,
            default_wp: 150,
            blocked: HashSet::new(),
            waypoints: HashMap::new(),
        };
        assert(s@.name =~= Seq::<char>::empty());
        s
    }

    fn apply_line(&mut self, input: &str, chars: &Vec<char>, spans: &Vec<(usize, usize)>, Ghost(ws): Ghost<Seq<Seq<char>>>)
        requires
            chars@ == input@,
            spans_are_words(chars@, spans@, ws),
            forall|k: int| 0 <= k < ws.len() ==> (#[trigger] ws[k]).len() > 0,
        ensures
            final(self)@ == apply_path_words(old(self)@, ws),
    {
        let n = spans.len();
        if n == 0 {
            return;
        }
        let (a0, _) = spans[0];
        if chars[a0] == '#' {
            return;
        }
        if word_is(chars, spans, 0, "name", Ghost(ws)) && n >= 2 {
            self.name = word_string(input, spans, 1, Ghost(ws));
        } else if word_is(chars, spans, 0, "start", Ghost(ws)) && n >= 3 {
            self.start = (word_coord(chars, spans, 1, Ghost(ws)), word_coord(chars, spans, 2, Ghost(ws)));
        } else if word_is(chars, spans, 0, "target", Ghost(ws)) && n >= 3 {
            self.target = (word_coord(chars, spans, 1, Ghost(ws)), word_coord(chars, spans, 2, Ghost(ws)));
        } else if word_is(chars, spans, 0, "visible", Ghost(ws)) && n >= 2 {
            self.visible = word_num_or(chars, spans, 1, i32::MIN as i128, i32::MAX as i128, 10, Ghost(ws)) as i32;
        } else if word_is(chars, spans, 0, "max_steps", Ghost(ws)) && n >= 2 {
            self.max_steps = word_num_or(chars, spans, 1, 0, usize::MAX as i128, 3, Ghost(ws)) as usize;
        } else if word_is(chars, spans, 0, "default_wp", Ghost(ws)) && n >= 2 {
            self.default_wp = word_num_or(chars, spans, 1, 0, u32::MAX as i128, 150, Ghost(ws)) as u32;
        } else if word_is(chars, spans, 0, "block", Ghost(ws)) && n >= 3 {
            let x = word_coord(chars, spans, 1, Ghost(ws));
            let y = word_coord(chars, spans, 2, Ghost(ws));
            self.blocked.insert(tile_key(x, y));
        } else if word_is(chars, spans, 0, "wp", Ghost(ws)) && n >= 4 {
            let x = word_coord(chars, spans, 1, Ghost(ws));
            let y = word_coord(chars, spans, 2, Ghost(ws));
            let wp = word_num_or(chars, spans, 3, 0, u32::MAX as i128, 150, Ghost(ws)) as u32;
            self.waypoints.insert(tile_key(x, y), wp);
        }
    }
}

/// Reads a path scenario (see `path_scenario_of`); `default_max_steps` is the step
/// budget when the text sets none.
pub fn parse_scenario(input: &str, default_max_steps: usize) -> (r: PathScenario)
    ensures
        r@ == path_scenario_of(input@, default_max_steps),
{
    let chars = chars_of(input);
    let n = chars.len();
    let mut s = PathScenario::start(default_max_steps);
    let mut ls: usize = 0;
    let mut i: usize = 0;
    proof {
        assert(chars@.subrange(0, 0) =~= Seq::<char>::empty());
    }
    while i < n
        invariant
            chars@ == input@,
            n == chars@.len(),
            ls <= i <= n,
            split_lines(chars@.subrange(0, i as int)).len() >= 1,
            split_lines(chars@.subrange(0, i as int)).last() == chars@.subrange(ls as int, i as int),
            apply_path_lines(split_lines(chars@.subrange(0, i as int)).drop_last(), default_max_steps) == s@,
        decreases n - i,
    {
        let ghost pre = chars@.subrange(0, i as int);
        let ghost cur = chars@.subrange(0, i + 1);
        proof {
            assert(cur.drop_last() =~= pre);
            assert(cur.last() == chars@[i as int]);
            lemma_split_lines_nonempty(pre);
        }
        if chars[i] == '\n' {
            let spans = word_spans(&chars, ls, i);
            let ghost line = chars@.subrange(ls as int, i as int);
            proof {
                lemma_words_nonempty(line);
                assert(split_lines(pre).drop_last().push(split_lines(pre).last()) =~= split_lines(pre));
            }
            s.apply_line(input, &chars, &spans, Ghost(words(line)));
            ls = i + 1;
            proof {
                assert(split_lines(cur) =~= split_lines(pre).push(Seq::empty()));
                assert(split_lines(cur).drop_last() =~= split_lines(pre));
                assert(chars@.subrange(ls as int, i + 1) =~= Seq::<char>::empty());
            }
        } else {
            proof {
                assert(chars@.subrange(ls as int, i + 1) =~= chars@.subrange(ls as int, i as int).push(chars@[i as int]));
                assert(split_lines(cur).drop_last() =~= split_lines(pre).drop_last());
            }
        }
        i = i + 1;
    }
    let spans = word_spans(&chars, ls, n);
    let ghost line = chars@.subrange(ls as int, n as int);
    proof {
        lemma_words_nonempty(line);
        assert(chars@.subrange(0, n as int) =~= chars@);
        let ls_all = split_lines(chars@);
        assert(ls_all.drop_last().push(ls_all.last()) =~= ls_all);
    }
    s.apply_line(input, &chars, &spans, Ghost(words(line)));
    s
}

/// The cost of tile `(x, y)`: none when blocked, else its own cost or the default.
pub open spec fn wp_at_spec(m: PathScenarioView, x: u16, y: u16) -> Option<u32> {
    let k = tile_key_of(x, y);
    if m.blocked.contains(k) {
        None
    } else if m.waypoints.contains_key(k) {
        Some(m.waypoints[k])
    } else {
        Some(m.default_wp)
    }
}

pub fn wp_at(s: &PathScenario, x: u16, y: u16) -> (r: Option<u32>)
    ensures
        r == wp_at_spec(s@, x, y),
{
    let k = tile_key(x, y);
    if s.blocked.contains(&k) {
        return None;
    }
    match s.waypoints.get(&k) {
        Some(w) => Some(*w),
        None => Some(s.default_wp),
    }
}

/// A step direction.
#[derive(Debug, Clone, Copy, PartialEq, Eq, Structural)]
pub enum Direction {
    North,
    East,
    South,
    West,
    NorthEast,
    NorthWest,
    SouthEast,
    SouthWest,
}

/// The compass label of a direction: N, E, S, W, NE, NW, SE, SW.
pub open spec fn dir_label(d: Direction) -> Seq<char> {
    match d {
        Direction::North => "N"@,
        Direction::East => "E"@,
        Direction::South => "S"@,
        Direction::West => "W"@,
        Direction::NorthEast => "NE"@,
        Direction::NorthWest => "NW"@,
        Direction::SouthEast => "SE"@,
        Direction::SouthWest => "SW"@,
    }
}

pub fn dir_name(d: Direction) -> (r: &'static str)
    ensures
        r@ == dir_label(d),
{
    match d {
        Direction::North => "N",
        Direction::East => "E",
        Direction::South => "S",
        Direction::West => "W",
        Direction::NorthEast => "NE",
        Direction::NorthWest => "NW",
        Direction::SouthEast => "SE",
        Direction::SouthWest => "SW",
    }
}

/// The four diagonal directions.
pub fn is_diagonal(d: Direction) -> (r: bool)
    ensures
        r == (d is NorthEast || d is NorthWest || d is SouthEast || d is SouthWest),
{
    match d {
        Direction::NorthEast | Direction::NorthWest | Direction::SouthEast | Direction::SouthWest => true,
        _ => false,
    }
}

} // verus!
