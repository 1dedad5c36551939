//! Looks, chase modes, action timers and target links shared by all creatures.

use vstd::prelude::*;
use crate::ids::CreatureId;

verus! {

/// How a creature closes in on its attack target; none by default.
#[derive(Debug, Clone, Copy, PartialEq, Eq, Structural)]
pub enum ChaseMode {
    /// No chase (the name `None` is taken by `Option`).
    NoChase,
    Close,
    Range,
}

impl Default for ChaseMode {
    fn default() -> (m: ChaseMode)
        ensures
            m == ChaseMode::NoChase,
    {
        ChaseMode::NoChase
    }
}

/// What a creature looks like.
#[derive(Debug, Clone, Copy, PartialEq, Eq, Structural)]
pub struct Outfit {
    pub look_type: i32,
    pub look_head: i32,
    pub look_body: i32,
    pub look_legs: i32,
    pub look_feet: i32,
    pub look_addons: i32,
}

impl Default for Outfit {
    /// Look type 136 with no colors or addons.
    fn default() -> (o: Outfit)
        ensures
            o == (Outfit { look_type: 136, look_head: 0, look_body: 0, look_legs: 0, look_feet: 0, look_addons: 0 }),
    {
        Outfit { look_type: 136, look_head: 0, look_body: 0, look_legs: 0, look_feet: 0, look_addons: 0 }
    }
}

/// `a + b`, or `u64::MAX` when that does not fit.
pub open spec fn sat_add(a: u64, b: u64) -> u64 {
    if a + b <= u64::MAX { (a + b) as u64 } else { u64::MAX }
}

pub open spec fn max_u64(a: u64, b: u64) -> u64 {
    if a >= b { a } else { b }
}

/// The earliest server times (ms) at which a creature may next attack, walk, cast and
/// use a two-object item.
#[derive(Debug, Clone, Copy, PartialEq, Eq, Structural)]
pub struct ActionTimers {
    pub earliest_attack_ms: u64,
    pub earliest_walk_server_ms: u64,
    pub earliest_spell_server_ms: u64,
    pub earliest_multiuse_server_ms: u64,
}

impl ActionTimers {
    /// Holds attacks back until `ms` after `server_ms` (saturating), never earlier than
    /// they already were.
    pub fn delay_attack_ms(&mut self, server_ms: u64, ms: u64)
        ensures
            *final(self) == (ActionTimers {
                earliest_attack_ms: max_u64(old(self).earliest_attack_ms, sat_add(server_ms, ms)),
                ..*old(self)
            }),
    {
        let t = server_ms.saturating_add(ms);
        if t > self.earliest_attack_ms {
            self.earliest_attack_ms = t;
        }
    }

    /// Whether an attack may run at `server_ms`, given the spell gate `earliest_spell_ms`.
    pub fn attack_ready_at(&self, server_ms: u64, earliest_spell_ms: u64) -> (r: bool)
        ensures
            r == (server_ms >= max_u64(self.earliest_attack_ms, earliest_spell_ms)),
    {
        let gate = if self.earliest_attack_ms >= earliest_spell_ms { self.earliest_attack_ms } else { earliest_spell_ms };
        server_ms >= gate
    }

    /// Holds spells back until `delay_ms` after `server_ms` (saturating), never earlier
    /// than they already were.
    pub fn delay_spell_ms(&mut self, server_ms: u64, delay_ms: u64)
        ensures
            *final(self) == (ActionTimers {
                earliest_spell_server_ms: max_u64(old(self).earliest_spell_server_ms, sat_add(server_ms, delay_ms)),
                ..*old(self)
            }),
    {
        let t = server_ms.saturating_add(delay_ms);
        if t > self.earliest_spell_server_ms {
            self.earliest_spell_server_ms = t;
        }
    }

    /// Holds two-object uses back until `delay_ms` after `server_ms` (saturating), never
    /// earlier than they already were.
    pub fn delay_multiuse_ms(&mut self, server_ms: u64, delay_ms: u64)
        ensures
            *final(self) == (ActionTimers {
                earliest_multiuse_server_ms: max_u64(old(self).earliest_multiuse_server_ms, sat_add(server_ms, delay_ms)),
                ..*old(self)
            }),
    {
        let t = server_ms.saturating_add(delay_ms);
        if t > self.earliest_multiuse_server_ms {
            self.earliest_multiuse_server_ms = t;
        }
    }

    pub fn walk_action_ready_at(&self, server_ms: u64) -> (r: bool)
        ensures
            r == (server_ms >= self.earliest_walk_server_ms),
    {
        server_ms >= self.earliest_walk_server_ms
    }

    pub fn spell_ready_at(&self, server_ms: u64) -> (r: bool)
        ensures
            r == (server_ms >= self.earliest_spell_server_ms),
    {
        server_ms >= self.earliest_spell_server_ms
    }

    pub fn multiuse_ready_at(&self, server_ms: u64) -> (r: bool)
        ensures
            r == (server_ms >= self.earliest_multiuse_server_ms),
    {
        server_ms >= self.earliest_multiuse_server_ms
    }

    /// The latest of the walk, spell and multiuse gates that still lies after
    /// `server_ms`; `None` when none does.
    pub fn earliest_action_block_ms(&self, server_ms: u64) -> (r: Option<u64>)
        ensures
            r == action_block_of(self.earliest_walk_server_ms, self.earliest_spell_server_ms,
                self.earliest_multiuse_server_ms, server_ms),
    {
        let mut best: Option<u64> = None;
        let gates = [self.earliest_walk_server_ms, self.earliest_spell_server_ms, self.earliest_multiuse_server_ms];
        let mut i: usize = 0;
        while i < 3
            invariant
                0 <= i <= 3,
                gates@ == seq![self.earliest_walk_server_ms, self.earliest_spell_server_ms, self.earliest_multiuse_server_ms],
                best == block_prefix(gates@, i as int, server_ms),
            decreases 3 - i,
        {
            let t = gates[i];
            if t > server_ms {
                best = match best {
                    Some(b) => Some(if t > b { t } else { b }),
                    None => Some(t),
                };
            }
            i = i + 1;
        }
        best
    }
}

/// The largest of the first `n` gates of `g` that lie after `now`, if any.
pub open spec fn block_prefix(g: Seq<u64>, n: int, now: u64) -> Option<u64>
    decreases n,
{
    if n <= 0 {
        None
    } else {
        let prev = block_prefix(g, n - 1, now);
        let t = g[n - 1];
        if t > now {
            match prev {
                Some(b) => Some(if t > b { t } else { b }),
                None => Some(t),
            }
        } else {
            prev
        }
    }
}

/// The largest of the walk, spell and multiuse gates that lies after `now`, if any.
pub open spec fn action_block_of(walk: u64, spell: u64, multiuse: u64, now: u64) -> Option<u64> {
    block_prefix(seq![walk, spell, multiuse], 3, now)
}

/// A spell delay only pushes the spell gate later: the new gate is the larger of the old
/// gate and the requested time, so a spell is ready at `t` afterwards exactly when it
/// was ready at `t` and `t` is past the requested time.
pub proof fn lemma_delay_spell_monotone(before: ActionTimers, after: ActionTimers, server_ms: u64, delay_ms: u64, t: u64)
    requires
        after == (ActionTimers {
            earliest_spell_server_ms: max_u64(before.earliest_spell_server_ms, sat_add(server_ms, delay_ms)),
            ..before
        }),
    ensures
        after.earliest_spell_server_ms >= before.earliest_spell_server_ms,
        after.earliest_spell_server_ms >= sat_add(server_ms, delay_ms),
        t < before.earliest_spell_server_ms ==> t < after.earliest_spell_server_ms,
        (t >= after.earliest_spell_server_ms) == (t >= before.earliest_spell_server_ms && t >= sat_add(server_ms, delay_ms)),
{
}

/// Who a creature follows and attacks, and its master when it is a summon.
#[derive(Debug, Clone, Copy, PartialEq, Eq, Structural)]
pub struct CreatureLinks {
    pub follow_target: Option<CreatureId>,
    pub attack_target: Option<CreatureId>,
    pub master: Option<CreatureId>,
}

impl CreatureLinks {
    /// A creature with a master is a summon.
    pub fn is_summon(&self) -> (r: bool)
        ensures
            r == (self.master is Some),
    {
        self.master.is_some()
    }

    /// Stops following and attacking.
    pub fn clear_targets(&mut self)
        ensures
            *final(self) == (CreatureLinks { follow_target: None, attack_target: None, ..*old(self) }),
    {
        self.follow_target = None;
        self.attack_target = None;
    }

    /// Stops following `target` (when it was the one followed).
    pub fn clear_follow_for_target(&mut self, target: CreatureId)
        ensures
            *final(self) == (if old(self).follow_target == Some(target) {
                CreatureLinks { follow_target: None, ..*old(self) }
            } else {
                *old(self)
            }),
    {
        if self.follow_target == Some(target) {
            self.follow_target = None;
        }
    }

    /// Stops attacking `target` (when it was the one attacked).
    pub fn clear_attack_for_target(&mut self, target: CreatureId)
        ensures
            *final(self) == (if old(self).attack_target == Some(target) {
                CreatureLinks { attack_target: None, ..*old(self) }
            } else {
                *old(self)
            }),
    {
        if self.attack_target == Some(target) {
            self.attack_target = None;
        }
    }
}

} // verus!
