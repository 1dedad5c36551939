//! Monster AI states.

use vstd::prelude::*;

verus! {

/// Coarse movement phase of a monster's AI.
#[derive(Debug, Clone, Copy, PartialEq, Eq, Structural)]
pub enum MonsterAiPhase {
    Idle,
    Chase,
    Flee,
    ReturnToSpawn,
}

/// Combat / awareness posture of a monster; a spawned monster sleeps.
#[derive(Debug, Clone, Copy, PartialEq, Eq, Structural)]
pub enum MonsterState {
    Sleeping,
    Idle,
    UnderAttack,
    Attacking,
    Panic,
}

impl Default for MonsterState {
    fn default() -> (s: MonsterState)
        ensures
            s == MonsterState::Sleeping,
    {
        MonsterState::Sleeping
    }
}

/// How a monster closes in on its target; none by default.
#[derive(Debug, Clone, Copy, PartialEq, Eq, Structural)]
pub enum MonsterChaseMode {
    /// No chase (the name `None` is taken by `Option`).
    NoChase,
    Close,
    Range,
}

impl Default for MonsterChaseMode {
    fn default() -> (m: MonsterChaseMode)
        ensures
            m == MonsterChaseMode::NoChase,
    {
        MonsterChaseMode::NoChase
    }
}

} // verus!
