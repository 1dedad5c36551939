//! NPC activity and the script hooks an NPC calls.

use vstd::prelude::*;
use crate::ids::CreatureId;

verus! {

/// What an NPC is doing; idle by default.
#[derive(Debug, Clone, Copy, PartialEq, Eq, Structural)]
pub enum NpcActivity {
    Sleeping,
    Idle,
    Talking,
    Leaving,
}

impl Default for NpcActivity {
    fn default() -> (a: NpcActivity)
        ensures
            a == NpcActivity::Idle,
    {
        NpcActivity::Idle
    }
}

/// Hooks an NPC script may implement; each does nothing by default, and the item check
/// accepts.
pub trait NpcEventsHandler {
    fn on_appear(&self, npc: CreatureId) {
    }

    fn on_disappear(&self, npc: CreatureId) {
    }

    fn on_say(&self, npc: CreatureId, speaker: CreatureId, words: &str) {
    }

    fn on_buy(&self, npc: CreatureId, buyer: CreatureId, item_type: u16, amount: u16) {
    }

    fn on_sell(&self, npc: CreatureId, buyer: CreatureId, item_type: u16, amount: u16) {
    }

    fn on_check_item(&self, npc: CreatureId, player: CreatureId, item_type: u16) -> (accepted: bool)
        default_ensures
            accepted,
    {
        true
    }

    fn on_close_channel(&self, npc: CreatureId, player: CreatureId) {
    }
}

/// The handler of NPCs without a script.
#[derive(Debug)]
pub struct NullNpcHandler;

impl NpcEventsHandler for NullNpcHandler {
}

} // verus!
