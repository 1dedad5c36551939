//! The container rules of moving items: whether an item may go into or leave a container,
//! how many fit, and where a move into a container really lands (a nested container, the
//! parent, or a stack to merge with).

use vstd::prelude::*;
use std::collections::HashMap;
use crate::container::{holds, ranked, Container, ContainerMap, ContainerRegistry, ContainerType};
use crate::ids::{CreatureId, ItemId, Position};

verus! {

broadcast use vstd::std_specs::hash::group_hash_axioms;

/// Outcome of a container query.
#[derive(Debug, Clone, Copy, PartialEq, Eq, Structural)]
pub enum ReturnValue {
    NoError,
    NotPossible,
    CannotPickup,
    ThisIsImpossible,
    ItemCannotBeMovedThere,
    CannotMoveItemIsNotStoreItem,
    ContainerNotEnoughRoom,
    NotMoveable,
    PlayerIsNotInvited,
}

/// Slot index meaning "anywhere it fits".
pub const INDEX_WHEREEVER: i32 = -1;
/// Slot index meaning "into the parent container".
pub const INDEX_MOVE_UP: i32 = -2;
/// Slot index meaning "add anywhere" (taken as `INDEX_WHEREEVER`).
pub const INDEX_ADD_WHEREVER: i32 = -3;

/// Most items on one stack.
pub const MAX_STACK: u16 = 100;

/// Options of a move.
#[derive(Debug, Clone, Copy, PartialEq, Eq, Structural)]
pub struct CylinderFlags {
    /// The mover owns the destination through the item itself: always allowed.
    pub child_is_owner: bool,
    /// Ignore capacity and inbox limits.
    pub no_limit: bool,
    /// Allow removing items that cannot be moved.
    pub ignore_not_moveable: bool,
    /// Do not merge with stacks already there.
    pub ignore_auto_stack: bool,
}

/// Where an item is or goes.
#[derive(Debug, Clone, Copy, PartialEq, Eq, Structural)]
pub enum Cylinder {
    Container { item_id: ItemId, index: i32 },
    Inventory { player_id: CreatureId, slot: u8 },
    Tile(Position),
}

/// What the rules read of an item.
#[derive(Debug, Clone, Copy, PartialEq, Eq, Structural)]
pub struct ItemFacts {
    pub item_type: u16,
    pub count: u16,
    pub fluid_type: u8,
    pub store_item: bool,
}

/// What the rules read of an item type.
#[derive(Debug, Clone, Copy, PartialEq, Eq, Structural)]
pub struct ItemTypeFacts {
    pub pickupable: bool,
    pub stackable: bool,
    pub moveable: bool,
    /// Splashes and fluid containers stack only with the same fluid.
    pub splash_or_fluid: bool,
}

/// The items in play and the item types, by id.
pub struct ItemTable {
    pub items: HashMap<ItemId, ItemFacts>,
    pub types: HashMap<u16, ItemTypeFacts>,
}

// ---------------------------------------------------------------------------
// Items
// ---------------------------------------------------------------------------

/// The type facts of item `id` (none for an unknown item or type).
pub open spec fn type_of(items: Map<ItemId, ItemFacts>, types: Map<u16, ItemTypeFacts>, id: ItemId) -> Option<ItemTypeFacts> {
    if items.contains_key(id) && types.contains_key(items[id].item_type) {
        Some(types[items[id].item_type])
    } else {
        None
    }
}

pub open spec fn is_stackable(items: Map<ItemId, ItemFacts>, types: Map<u16, ItemTypeFacts>, id: ItemId) -> bool {
    type_of(items, types, id) matches Some(t) && t.stackable
}

/// Two items stack: both known, same type, and the same fluid for splashes and fluid
/// containers.
pub open spec fn mergeable(items: Map<ItemId, ItemFacts>, types: Map<u16, ItemTypeFacts>, a: ItemId, b: ItemId) -> bool {
    &&& items.contains_key(a)
    &&& items.contains_key(b)
    &&& items[a].item_type == items[b].item_type
    &&& (types.contains_key(items[a].item_type) && types[items[a].item_type].splash_or_fluid
        ==> items[a].fluid_type == items[b].fluid_type)
}

/// A known item whose stack has room.
pub open spec fn has_room(items: Map<ItemId, ItemFacts>, id: ItemId) -> bool {
    items.contains_key(id) && items[id].count < MAX_STACK
}

impl ItemTable {
    pub fn item(&self, id: ItemId) -> (r: Option<&ItemFacts>)
        ensures
            match r {
                Some(f) => self.items@.contains_key(id) && *f == self.items@[id],
                None => !self.items@.contains_key(id),
            },
    {
        self.items.get(&id)
    }

    pub fn item_type(&self, id: ItemId) -> (r: Option<ItemTypeFacts>)
        ensures
            r == type_of(self.items@, self.types@, id),
    {
        match self.items.get(&id) {
            Some(f) => match self.types.get(&f.item_type) {
                Some(t) => Some(*t),
                None => None,
            },
            None => None,
        }
    }

    /// Whether items `a` and `b` stack.
    pub fn items_stack_mergeable(&self, a: ItemId, b: ItemId) -> (r: bool)
        ensures
            r == mergeable(self.items@, self.types@, a, b),
    {
        let ia = match self.items.get(&a) {
            Some(x) => *x,
            None => return false,
        };
        let ib = match self.items.get(&b) {
            Some(x) => *x,
            None => return false,
        };
        if ia.item_type != ib.item_type {
            return false;
        }
        let splash = match self.types.get(&ia.item_type) {
            Some(t) => t.splash_or_fluid,
            None => false,
        };
        if splash && ia.fluid_type != ib.fluid_type {
            return false;
        }
        true
    }

    /// Whether item `id` is known and its stack has room.
    pub fn has_stack_room(&self, id: ItemId) -> (r: bool)
        ensures
            r == has_room(self.items@, id),
    {
        match self.items.get(&id) {
            Some(f) => f.count < MAX_STACK,
            None => false,
        }
    }
}

// ---------------------------------------------------------------------------
// Parent chains
// ---------------------------------------------------------------------------

/// The parent of container `id` (none when unregistered or at the top).
pub open spec fn parent_of(m: ContainerMap, id: ItemId) -> Option<ItemId> {
    if m.contains_key(id) { m[id].parent_container } else { None }
}

/// The chain of parents above `id`, at most `fuel` of them.
pub open spec fn ancestors(m: ContainerMap, id: ItemId, fuel: nat) -> Seq<ItemId>
    decreases fuel,
{
    if fuel == 0 {
        Seq::empty()
    } else {
        match parent_of(m, id) {
            None => Seq::empty(),
            Some(p) => seq![p] + ancestors(m, p, (fuel - 1) as nat),
        }
    }
}

/// The chain above `id` ends within `fuel` steps.
pub open spec fn chain_ends(m: ContainerMap, id: ItemId, fuel: nat) -> bool
    decreases fuel,
{
    fuel > 0 && match parent_of(m, id) {
        None => true,
        Some(p) => chain_ends(m, p, (fuel - 1) as nat),
    }
}

/// Parents rank above their children: no container is its own ancestor.
pub open spec fn parents_ranked(m: ContainerMap, rank: spec_fn(ItemId) -> nat) -> bool {
    forall|c: ItemId| #[trigger] m.contains_key(c) && m[c].parent_container is Some
        ==> rank(m[c].parent_container->0) < rank(c)
}

pub open spec fn parents_acyclic(m: ContainerMap) -> bool {
    exists|rank: spec_fn(ItemId) -> nat| parents_ranked(m, rank)
}

/// The chain of parents above `id` ends (it runs into no cycle).
pub open spec fn chain_finite(m: ContainerMap, id: ItemId) -> bool {
    exists|f: nat| chain_ends(m, id, f)
}

/// With no cycle among the parents, every chain ends.
pub proof fn lemma_acyclic_chain_finite(m: ContainerMap, id: ItemId)
    requires
        parents_acyclic(m),
    ensures
        chain_finite(m, id),
{
    let rank = choose|rank: spec_fn(ItemId) -> nat| parents_ranked(m, rank);
    lemma_chain_ends_ranked(m, rank, id);
}

/// The whole chain of parents above `id`, nearest first.
pub open spec fn all_ancestors(m: ContainerMap, id: ItemId) -> Seq<ItemId> {
    ancestors(m, id, choose|f: nat| chain_ends(m, id, f))
}

/// The top of the chain above `id`: its last ancestor, or `id` itself.
pub open spec fn top_of(m: ContainerMap, id: ItemId) -> ItemId {
    let a = all_ancestors(m, id);
    if a.len() == 0 { id } else { a.last() }
}

proof fn lemma_chain_ends_ranked(m: ContainerMap, rank: spec_fn(ItemId) -> nat, id: ItemId)
    requires
        parents_ranked(m, rank),
    ensures
        chain_ends(m, id, rank(id) + 1),
    decreases rank(id),
{
    if let Some(p) = parent_of(m, id) {
        assert(m.contains_key(id));
        lemma_chain_ends_ranked(m, rank, p);
        lemma_ancestors_stable(m, p, rank(p) + 1, rank(id) as nat);
    }
}

/// Chains that end agree, whatever fuel shows it.
proof fn lemma_ancestors_stable(m: ContainerMap, id: ItemId, f1: nat, f2: nat)
    requires
        chain_ends(m, id, f1),
        f1 <= f2,
    ensures
        ancestors(m, id, f1) == ancestors(m, id, f2),
        chain_ends(m, id, f2),
    decreases f1,
{
    if let Some(p) = parent_of(m, id) {
        lemma_ancestors_stable(m, p, (f1 - 1) as nat, (f2 - 1) as nat);
    }
}

proof fn lemma_all_ancestors(m: ContainerMap, id: ItemId, f: nat)
    requires
        chain_ends(m, id, f),
    ensures
        all_ancestors(m, id) == ancestors(m, id, f),
{
    let g = choose|g: nat| chain_ends(m, id, g);
    if g <= f {
        lemma_ancestors_stable(m, id, g, f);
    } else {
        lemma_ancestors_stable(m, id, f, g);
    }
}

/// Follows the parents of `id` to the topmost container.
pub fn top_container_item_id(reg: &ContainerRegistry, id: ItemId) -> (r: ItemId)
    requires
        chain_finite(reg.containers_view(), id),
    ensures
        r == top_of(reg.containers_view(), id),
{
    let ghost m = reg.containers_view();
    let ghost f0 = choose|f: nat| chain_ends(m, id, f);
    proof {
        lemma_all_ancestors(m, id, f0);
    }
    let ghost full = ancestors(m, id, f0);
    let mut cur = id;
    let ghost mut k: int = 0;
    let ghost mut f: nat = f0;
    loop
        invariant
            m == reg.containers_view(),
            chain_ends(m, cur, f),
            0 <= k <= full.len(),
            all_ancestors(m, id) == full,
            full.subrange(k, full.len() as int) == ancestors(m, cur, f),
            k == 0 ==> cur == id,
            k > 0 ==> cur == full[k - 1],
        decreases f,
    {
        let next = match reg.get(cur) {
            Some(c) => c.parent_container,
            None => None,
        };
        match next {
            Some(p) => {
                proof {
                    assert(m.contains_key(cur));
                    assert(full.subrange(k, full.len() as int)[0] == p);
                    assert(full.subrange(k + 1, full.len() as int) =~= full.subrange(k, full.len() as int).drop_first());
                }
                cur = p;
                proof {
                    k = k + 1;
                    f = (f - 1) as nat;
                }
            },
            None => {
                proof {
                    assert(ancestors(m, cur, f) =~= Seq::<ItemId>::empty());
                    assert(k == full.len());
                    if k > 0 {
                        assert(full.last() == full[k - 1]);
                    }
                }
                return cur;
            },
        }
    }
    cur
}

// ---------------------------------------------------------------------------
// Taking an item out
// ---------------------------------------------------------------------------

/// May `count` of item `item_id` leave container `cid`: it must be a known item in
/// that container, the count must be positive and, for a stackable item, at most the
/// stack; an item that cannot be moved stays unless the move ignores that.
pub open spec fn query_remove_of(
    m: ContainerMap,
    items: Map<ItemId, ItemFacts>,
    types: Map<u16, ItemTypeFacts>,
    cid: ItemId,
    item_id: ItemId,
    count: u32,
    flags: CylinderFlags,
) -> ReturnValue {
    if !m.contains_key(cid) || !m[cid].items@.contains(item_id) || !items.contains_key(item_id) {
        ReturnValue::NotPossible
    } else if count == 0 || (is_stackable(items, types, item_id) && count > items[item_id].count) {
        ReturnValue::NotPossible
    } else if !(type_of(items, types, item_id) matches Some(t) && t.moveable) && !flags.ignore_not_moveable {
        ReturnValue::NotMoveable
    } else {
        ReturnValue::NoError
    }
}

pub fn container_query_remove(
    reg: &ContainerRegistry,
    table: &ItemTable,
    container_item_id: ItemId,
    item_id: ItemId,
    count: u32,
    flags: CylinderFlags,
    _actor: Option<CreatureId>,
) -> (r: ReturnValue)
    ensures
        r == query_remove_of(reg.containers_view(), table.items@, table.types@, container_item_id, item_id, count, flags),
{
    let cont = match reg.get(container_item_id) {
        Some(c) => c,
        None => return ReturnValue::NotPossible,
    };
    if !cont.contains(item_id) {
        return ReturnValue::NotPossible;
    }
    let item = match table.item(item_id) {
        Some(i) => *i,
        None => return ReturnValue::NotPossible,
    };
    let it = table.item_type(item_id);
    let stackable = match it { Some(t) => t.stackable, None => false };
    if count == 0 || (stackable && count > item.count as u32) {
        return ReturnValue::NotPossible;
    }
    let moveable = match it { Some(t) => t.moveable, None => false };
    if !moveable && !flags.ignore_not_moveable {
        return ReturnValue::NotMoveable;
    }
    ReturnValue::NoError
}

/// The slot of the first `item_id` in container `cid` (taken to `i32` by truncation).
pub fn get_thing_index_in_container(reg: &ContainerRegistry, container_item_id: ItemId, item_id: ItemId) -> (r: Option<i32>)
    ensures
        ({
            let m = reg.containers_view();
            if m.contains_key(container_item_id) && m[container_item_id].items@.contains(item_id) {
                exists|i: int| 0 <= i < m[container_item_id].items@.len()
                    && m[container_item_id].items@[i] == item_id
                    && (forall|j: int| 0 <= j < i ==> m[container_item_id].items@[j] != item_id)
                    && r == Some(#[trigger] (i as i32))
            } else {
                r is None
            }
        }),
{
    let c = match reg.get(container_item_id) {
        Some(c) => c,
        None => return None,
    };
    match c.index_of(item_id) {
        Some(i) => {
            let k = #[verifier::truncate] (i as i32);
            assert(k == (i as int) as i32);
            Some(k)
        },
        None => None,
    }
}

// ---------------------------------------------------------------------------
// Putting an item in
// ---------------------------------------------------------------------------

/// The first refusal met walking up the chain `anc`: the moved item itself among the
/// parents (a container cannot go into itself), or, with limits, an inbox.
pub open spec fn chain_verdict(m: ContainerMap, anc: Seq<ItemId>, item_id: ItemId, no_limit: bool) -> Option<ReturnValue>
    decreases anc.len(),
{
    if anc.len() == 0 {
        None
    } else if anc[0] == item_id {
        Some(ReturnValue::ThisIsImpossible)
    } else if !no_limit && m.contains_key(anc[0]) && m[anc[0]].container_type == ContainerType::Inbox {
        Some(ReturnValue::ContainerNotEnoughRoom)
    } else {
        chain_verdict(m, anc.drop_first(), item_id, no_limit)
    }
}

/// May item `item_id` go into slot `index` of container `cid` (no acting player)?
/// In order: owner moves always may; the container must exist and be unlocked and the
/// item known and pickupable, not the container itself; store items only go to depots
/// and store inboxes, and a store-item container in a store inbox takes nothing; no
/// parent may be the item or (with limits) an inbox; "anywhere" needs a free slot.
pub open spec fn query_add_of(
    m: ContainerMap,
    items: Map<ItemId, ItemFacts>,
    types: Map<u16, ItemTypeFacts>,
    cid: ItemId,
    index: i32,
    item_id: ItemId,
    flags: CylinderFlags,
) -> ReturnValue {
    if flags.child_is_owner {
        ReturnValue::NoError
    } else if !m.contains_key(cid) || !m[cid].unlocked || !items.contains_key(item_id) {
        ReturnValue::NotPossible
    } else if !(type_of(items, types, item_id) matches Some(t) && t.pickupable) {
        ReturnValue::CannotPickup
    } else if cid == item_id {
        ReturnValue::ThisIsImpossible
    } else if items[item_id].store_item && !(m[cid].container_type == ContainerType::Depot
        || m[cid].container_type == ContainerType::StoreInbox) {
        ReturnValue::ItemCannotBeMovedThere
    } else if items.contains_key(cid) && items[cid].store_item && (m[cid].parent_container matches Some(p)
        && m.contains_key(p) && m[p].container_type == ContainerType::StoreInbox) {
        if items[item_id].store_item {
            ReturnValue::ItemCannotBeMovedThere
        } else {
            ReturnValue::CannotMoveItemIsNotStoreItem
        }
    } else {
        match chain_verdict(m, all_ancestors(m, cid), item_id, flags.no_limit) {
            Some(v) => v,
            None => if !flags.no_limit && index == INDEX_WHEREEVER && m[cid].items@.len() >= m[cid].capacity {
                ReturnValue::ContainerNotEnoughRoom
            } else {
                ReturnValue::NoError
            },
        }
    }
}

/// A chain of parents that holds the moved item gives a refusal.
proof fn lemma_chain_verdict_refuses(m: ContainerMap, anc: Seq<ItemId>, item_id: ItemId, no_limit: bool)
    requires
        anc.contains(item_id),
    ensures
        chain_verdict(m, anc, item_id, no_limit) matches Some(v) && v != ReturnValue::NoError,
    decreases anc.len(),
{
    if anc[0] != item_id {
        let t = choose|t: int| 0 <= t < anc.len() && anc[t] == item_id;
        assert(anc.drop_first()[t - 1] == item_id);
        lemma_chain_verdict_refuses(m, anc.drop_first(), item_id, no_limit);
    }
}

/// A container never goes into itself or into any container inside it: unless the move
/// is the owner's own, `query_add_of` refuses when the target container is the moved
/// item or the moved item is among the target's parents.
pub proof fn lemma_query_add_refuses_own_subtree(
    m: ContainerMap,
    items: Map<ItemId, ItemFacts>,
    types: Map<u16, ItemTypeFacts>,
    cid: ItemId,
    index: i32,
    item_id: ItemId,
    flags: CylinderFlags,
)
    requires
        !flags.child_is_owner,
        cid == item_id || all_ancestors(m, cid).contains(item_id),
    ensures
        query_add_of(m, items, types, cid, index, item_id, flags) != ReturnValue::NoError,
{
    if all_ancestors(m, cid).contains(item_id) {
        lemma_chain_verdict_refuses(m, all_ancestors(m, cid), item_id, flags.no_limit);
    }
}

/// Walks the parents above `cid` with `chain_verdict`.
fn walk_parents(reg: &ContainerRegistry, cid: ItemId, item_id: ItemId, no_limit: bool) -> (r: Option<ReturnValue>)
    requires
        chain_finite(reg.containers_view(), cid),
    ensures
        r == chain_verdict(reg.containers_view(), all_ancestors(reg.containers_view(), cid), item_id, no_limit),
{
    let ghost m = reg.containers_view();
    let ghost f0 = choose|f: nat| chain_ends(m, cid, f);
    proof {
        lemma_all_ancestors(m, cid, f0);
    }
    let ghost full = ancestors(m, cid, f0);
    assert(full.subrange(0, full.len() as int) =~= full);
    let mut cur = cid;
    let ghost mut k: int = 0;
    let ghost mut f: nat = f0;
    loop
        invariant
            m == reg.containers_view(),
            chain_ends(m, cur, f),
            0 <= k <= full.len(),
            all_ancestors(m, cid) == full,
            full.subrange(k, full.len() as int) == ancestors(m, cur, f),
            chain_verdict(m, full, item_id, no_limit) == chain_verdict(m, full.subrange(k, full.len() as int), item_id, no_limit),
        decreases f,
    {
        let next = match reg.get(cur) {
            Some(c) => c.parent_container,
            None => None,
        };
        match next {
            Some(p) => {
                let ghost rest = full.subrange(k, full.len() as int);
                proof {
                    assert(m.contains_key(cur));
                    assert(rest[0] == p);
                    assert(full.subrange(k + 1, full.len() as int) =~= rest.drop_first());
                }
                if p == item_id {
                    return Some(ReturnValue::ThisIsImpossible);
                }
                if !no_limit {
                    match reg.get(p) {
                        Some(pc) => {
                            if pc.container_type == ContainerType::Inbox {
                                return Some(ReturnValue::ContainerNotEnoughRoom);
                            }
                        },
                        None => {},
                    }
                }
                cur = p;
                proof {
                    k = k + 1;
                    f = (f - 1) as nat;
                }
            },
            None => {
                proof {
                    assert(ancestors(m, cur, f) =~= Seq::<ItemId>::empty());
                }
                return None;
            },
        }
    }
    None
}

fn container_type_is(t: ContainerType, u: ContainerType) -> (r: bool)
    ensures
        r == (t == u),
{
    match (t, u) {
        (ContainerType::Normal, ContainerType::Normal) => true,
        (ContainerType::Depot, ContainerType::Depot) => true,
        (ContainerType::Inbox, ContainerType::Inbox) => true,
        (ContainerType::StoreInbox, ContainerType::StoreInbox) => true,
        (ContainerType::BrowseField, ContainerType::BrowseField) => true,
        _ => false,
    }
}

/// `query_add_of` of the move (no acting player; see `query_add_for_player`).
pub fn container_query_add(
    reg: &ContainerRegistry,
    table: &ItemTable,
    container_item_id: ItemId,
    index: i32,
    item_id: ItemId,
    _count: u32,
    flags: CylinderFlags,
) -> (r: ReturnValue)
    requires
        chain_finite(reg.containers_view(), container_item_id),
    ensures
        r == query_add_of(reg.containers_view(), table.items@, table.types@, container_item_id, index, item_id, flags),
{
    if flags.child_is_owner {
        return ReturnValue::NoError;
    }
    let cont = match reg.get(container_item_id) {
        Some(c) => c,
        None => return ReturnValue::NotPossible,
    };
    if !cont.unlocked {
        return ReturnValue::NotPossible;
    }
    let item = match table.item(item_id) {
        Some(i) => *i,
        None => return ReturnValue::NotPossible,
    };
    let pickupable = match table.item_type(item_id) { Some(t) => t.pickupable, None => false };
    if !pickupable {
        return ReturnValue::CannotPickup;
    }
    if container_item_id == item_id {
        return ReturnValue::ThisIsImpossible;
    }
    if item.store_item && !(container_type_is(cont.container_type, ContainerType::Depot)
        || container_type_is(cont.container_type, ContainerType::StoreInbox)) {
        return ReturnValue::ItemCannotBeMovedThere;
    }
    let in_store_inbox = match cont.parent_container {
        Some(pid) => match reg.get(pid) {
            Some(pc) => container_type_is(pc.container_type, ContainerType::StoreInbox),
            None => false,
        },
        None => false,
    };
    let self_store = match table.item(container_item_id) {
        Some(ci) => ci.store_item,
        None => false,
    };
    if self_store && in_store_inbox {
        return if item.store_item {
            ReturnValue::ItemCannotBeMovedThere
        } else {
            ReturnValue::CannotMoveItemIsNotStoreItem
        };
    }
    match walk_parents(reg, container_item_id, item_id, flags.no_limit) {
        Some(v) => v,
        None => {
            if !flags.no_limit && index == INDEX_WHEREEVER && cont.items.len() as u64 >= cont.capacity as u64 {
                ReturnValue::ContainerNotEnoughRoom
            } else {
                ReturnValue::NoError
            }
        },
    }
}

/// The house check of a move into a container in a house: none when the container's
/// top is on no house tile or the actor is no player; else refused unless invited.
pub fn house_invite_verdict(house_id: Option<u32>, actor_guid: Option<u32>, invited: bool) -> (r: Option<ReturnValue>)
    ensures
        r == (if house_id is Some && actor_guid is Some && !invited { Some(ReturnValue::PlayerIsNotInvited) } else { None }),
{
    match (house_id, actor_guid) {
        (Some(_), Some(_)) => if invited { None } else { Some(ReturnValue::PlayerIsNotInvited) },
        _ => None,
    }
}

/// A player's move into a container: the container verdict first; a refusal by the
/// house check next; then, when the player carries the container, the inventory's
/// verdict on taking the item.
pub open spec fn for_player(base: ReturnValue, child_is_owner: bool, house: Option<ReturnValue>, holds_tree: bool, inventory: ReturnValue) -> ReturnValue {
    if child_is_owner || base != ReturnValue::NoError {
        base
    } else if house is Some {
        house->0
    } else if holds_tree {
        inventory
    } else {
        ReturnValue::NoError
    }
}

pub fn query_add_for_player(base: ReturnValue, flags: CylinderFlags, house: Option<ReturnValue>, holds_tree: bool, inventory: ReturnValue) -> (r: ReturnValue)
    ensures
        r == for_player(base, flags.child_is_owner, house, holds_tree, inventory),
{
    if flags.child_is_owner || !matches!(base, ReturnValue::NoError) {
        return base;
    }
    match house {
        Some(v) => v,
        None => if holds_tree { inventory } else { ReturnValue::NoError },
    }
}

/// Some equipped item is the container `root` or holds it somewhere inside.
pub open spec fn holds_tree(m: ContainerMap, slots: Seq<Option<ItemId>>, root: ItemId) -> bool {
    exists|i: int| 0 <= i < slots.len() && slot_holds(m, #[trigger] slots[i], root)
}

/// An equipment slot holds the container `root`: it is `root` or a registered container
/// with `root` inside.
pub open spec fn slot_holds(m: ContainerMap, slot: Option<ItemId>, root: ItemId) -> bool {
    match slot {
        Some(it) => it == root || (m.contains_key(it) && holds(m, m[it].item_id, root)),
        None => false,
    }
}

/// Whether a player with equipment `slots` carries the container `root`.
pub fn player_holds_container_tree(reg: &ContainerRegistry, slots: &Vec<Option<ItemId>>, root: ItemId) -> (r: bool)
    requires
        exists|rank: spec_fn(ItemId) -> nat| ranked(reg.containers_view(), rank),
    ensures
        r == holds_tree(reg.containers_view(), slots@, root),
{
    let ghost m = reg.containers_view();
    let mut i: usize = 0;
    while i < slots.len()
        invariant
            m == reg.containers_view(),
            exists|rank: spec_fn(ItemId) -> nat| ranked(m, rank),
            i <= slots@.len(),
            forall|j: int| 0 <= j < i ==> !slot_holds(m, #[trigger] slots@[j], root),
        decreases slots@.len() - i,
    {
        match slots[i] {
            Some(it) => {
                if it == root {
                    return true;
                }
                match reg.get(it) {
                    Some(c) => {
                        if c.is_holding_item(reg, root) {
                            return true;
                        }
                    },
                    None => {},
                }
            },
            None => {},
        }
        i = i + 1;
    }
    false
}

// ---------------------------------------------------------------------------
// How many fit
// ---------------------------------------------------------------------------

/// Free slots: capacity less items, each taken to `i32` by truncation, at least 0.
pub open spec fn free_slots(c: Container) -> int {
    let d = (c.capacity as i32) - (c.items@.len() as i32);
    if d < 0 { 0 } else { d }
}

pub open spec fn free_fits(c: Container) -> bool {
    i32::MIN <= (c.capacity as i32) - (c.items@.len() as i32) <= i32::MAX
}

/// Room on the stack in slot `i` for item `item_id`: another item that stacks with it,
/// has room and the container would take the item in that slot.
pub open spec fn slot_room(
    m: ContainerMap,
    items: Map<ItemId, ItemFacts>,
    types: Map<u16, ItemTypeFacts>,
    cid: ItemId,
    i: int,
    item_id: ItemId,
    flags: CylinderFlags,
) -> int {
    let other = m[cid].items@[i];
    if other != item_id && mergeable(items, types, item_id, other) && has_room(items, other)
        && query_add_of(m, items, types, cid, i as i32, item_id, flags) == ReturnValue::NoError {
        MAX_STACK - items[other].count
    } else {
        0
    }
}

/// Room on the stacks of the first `n` slots.
pub open spec fn stacks_room(
    m: ContainerMap,
    items: Map<ItemId, ItemFacts>,
    types: Map<u16, ItemTypeFacts>,
    cid: ItemId,
    n: int,
    item_id: ItemId,
    flags: CylinderFlags,
) -> int
    decreases n,
{
    if n <= 0 { 0 } else { stacks_room(m, items, types, cid, n - 1, item_id, flags) + slot_room(m, items, types, cid, n - 1, item_id, flags) }
}

pub open spec fn min_u32(x: int) -> int {
    if x > u32::MAX { u32::MAX as int } else { x }
}

/// How many of item `item_id` container `cid` takes at slot `index`: without limits
/// the count (at least 1); a stackable item fills free slots by 100 plus the room on
/// fitting stacks (every slot for "anywhere", else the one slot), all saturating, and
/// needs room for `count`; another item needs a free slot.
pub open spec fn max_count_of(
    m: ContainerMap,
    items: Map<ItemId, ItemFacts>,
    types: Map<u16, ItemTypeFacts>,
    cid: ItemId,
    index: i32,
    item_id: ItemId,
    count: u32,
    flags: CylinderFlags,
) -> Result<u32, ReturnValue> {
    if !items.contains_key(item_id) {
        Err(ReturnValue::NotPossible)
    } else if flags.no_limit {
        Ok(if count < 1 { 1u32 } else { count })
    } else if !m.contains_key(cid) {
        Err(ReturnValue::NotPossible)
    } else if is_stackable(items, types, item_id) {
        let n = if index == INDEX_WHEREEVER {
            min_u32(stacks_room(m, items, types, cid, m[cid].items@.len() as int, item_id, flags))
        } else if 0 <= index < m[cid].items@.len() {
            slot_room(m, items, types, cid, index as int, item_id, flags)
        } else {
            0
        };
        let q = min_u32(min_u32(free_slots(m[cid]) * 100) + n);
        if q < count { Err(ReturnValue::ContainerNotEnoughRoom) } else { Ok(q as u32) }
    } else if free_slots(m[cid]) == 0 {
        Err(ReturnValue::ContainerNotEnoughRoom)
    } else {
        Ok(free_slots(m[cid]) as u32)
    }
}

proof fn lemma_slot_room_bounds(
    m: ContainerMap,
    items: Map<ItemId, ItemFacts>,
    types: Map<u16, ItemTypeFacts>,
    cid: ItemId,
    i: int,
    item_id: ItemId,
    flags: CylinderFlags,
)
    ensures
        0 <= slot_room(m, items, types, cid, i, item_id, flags) <= 100,
{
}

proof fn lemma_stacks_room_nonneg(
    m: ContainerMap,
    items: Map<ItemId, ItemFacts>,
    types: Map<u16, ItemTypeFacts>,
    cid: ItemId,
    n: int,
    item_id: ItemId,
    flags: CylinderFlags,
)
    ensures
        stacks_room(m, items, types, cid, n, item_id, flags) >= 0,
    decreases n,
{
    if n > 0 {
        lemma_stacks_room_nonneg(m, items, types, cid, n - 1, item_id, flags);
        lemma_slot_room_bounds(m, items, types, cid, n - 1, item_id, flags);
    }
}

fn sat_add_u32(a: u32, b: u32) -> (r: u32)
    ensures
        r == min_u32(a + b),
{
    if a as u64 + b as u64 > u32::MAX as u64 { u32::MAX } else { a + b }
}

/// The room the stack in slot `i` offers (see `slot_room`).
fn slot_room_exec(reg: &ContainerRegistry, table: &ItemTable, cid: ItemId, i: usize, item_id: ItemId, flags: CylinderFlags) -> (r: u32)
    requires
        chain_finite(reg.containers_view(), cid),
        reg.containers_view().contains_key(cid),
        i < reg.containers_view()[cid].items@.len(),
        i <= i32::MAX,
    ensures
        r == slot_room(reg.containers_view(), table.items@, table.types@, cid, i as int, item_id, flags),
{
    let cont = reg.get(cid).unwrap();
    let other = cont.items[i];
    if other != item_id && table.items_stack_mergeable(item_id, other) && table.has_stack_room(other) {
        if matches!(container_query_add(reg, table, cid, i as i32, item_id, 0, flags), ReturnValue::NoError) {
            let c = table.item(other).unwrap().count;
            return (MAX_STACK - c) as u32;
        }
    }
    0
}

pub fn container_query_max_count(
    reg: &ContainerRegistry,
    table: &ItemTable,
    container_item_id: ItemId,
    index: i32,
    item_id: ItemId,
    count: u32,
    flags: CylinderFlags,
) -> (r: Result<u32, ReturnValue>)
    requires
        chain_finite(reg.containers_view(), container_item_id),
        reg.containers_view().contains_key(container_item_id) ==> free_fits(reg.containers_view()[container_item_id]),
        reg.containers_view().contains_key(container_item_id) ==> reg.containers_view()[container_item_id].items@.len() <= i32::MAX,
    ensures
        r == max_count_of(reg.containers_view(), table.items@, table.types@, container_item_id, index, item_id, count, flags),
{
    let ghost m = reg.containers_view();
    if table.item(item_id).is_none() {
        return Err(ReturnValue::NotPossible);
    }
    if flags.no_limit {
        return Ok(if count < 1 { 1 } else { count });
    }
    let cont = match reg.get(container_item_id) {
        Some(c) => c,
        None => return Err(ReturnValue::NotPossible),
    };
    let cap = #[verifier::truncate] (cont.capacity as i32);
    let size = #[verifier::truncate] (cont.items.len() as i32);
    let d = cap - size;
    let free: u32 = if d < 0 { 0 } else { d as u32 };
    let stackable = match table.item_type(item_id) { Some(t) => t.stackable, None => false };
    if stackable {
        let mut n: u32 = 0;
        if index == INDEX_WHEREEVER {
            let mut k: usize = 0;
            while k < cont.items.len()
                invariant
                    m == reg.containers_view(),
                    chain_finite(m, container_item_id),
                    m.contains_key(container_item_id),
                    *cont == m[container_item_id],
                    cont.items@.len() <= i32::MAX,
                    k <= cont.items@.len(),
                    n == min_u32(stacks_room(m, table.items@, table.types@, container_item_id, k as int, item_id, flags)),
                decreases cont.items@.len() - k,
            {
                let room = slot_room_exec(reg, table, container_item_id, k, item_id, flags);
                proof {
                    lemma_stacks_room_nonneg(m, table.items@, table.types@, container_item_id, k as int, item_id, flags);
                    lemma_slot_room_bounds(m, table.items@, table.types@, container_item_id, k as int, item_id, flags);
                }
                n = sat_add_u32(n, room);
                k = k + 1;
            }
        } else if index >= 0 && (index as usize) < cont.items.len() {
            n = slot_room_exec(reg, table, container_item_id, index as usize, item_id, flags);
        }
        let slots100: u32 = if free as u64 * 100 > u32::MAX as u64 { u32::MAX } else { free * 100 };
        let max_query = sat_add_u32(slots100, n);
        if max_query < count {
            return Err(ReturnValue::ContainerNotEnoughRoom);
        }
        Ok(max_query)
    } else {
        if free == 0 {
            return Err(ReturnValue::ContainerNotEnoughRoom);
        }
        Ok(free)
    }
}

// ---------------------------------------------------------------------------
// Where a move lands
// ---------------------------------------------------------------------------

/// Where a move into a container goes on from there.
#[derive(Debug, Clone, Copy, PartialEq, Eq, Structural)]
pub enum ContainerDestResolution {
    /// The item goes into this container at `index`, onto `dest_stack_item` if given.
    StayHere { index: i32, dest_stack_item: Option<ItemId> },
    /// The item goes on to another place (a nested container or the parent).
    Redirect(Cylinder),
}

/// The first other item among `list` from position `from` on that stacks with
/// `item_id` and has room, with its slot.
pub open spec fn first_stack(items: Map<ItemId, ItemFacts>, types: Map<u16, ItemTypeFacts>, list: Seq<ItemId>, item_id: ItemId, from: int) -> Option<int>
    decreases list.len() - from,
{
    if from < 0 || from >= list.len() {
        None
    } else if list[from] != item_id && mergeable(items, types, item_id, list[from]) && has_room(items, list[from]) {
        Some(from)
    } else {
        first_stack(items, types, list, item_id, from + 1)
    }
}

/// The slot a move asks for once settled: "add anywhere" and slots past the capacity
/// (taken to `i32` by truncation) become "anywhere".
pub open spec fn settled_index(c: Container, index: i32) -> i32 {
    if index == INDEX_ADD_WHEREVER || index >= (c.capacity as i32) { INDEX_WHEREEVER } else { index }
}

/// The destination of moving item `item_id` into slot `index` of container `cid`, and
/// the slot index as the move leaves it. A locked container keeps the move as it is;
/// "up" goes to the parent (or stays, for a top container); a slot holding a container
/// moves into that container; otherwise an auto-stacking move of a stackable item not
/// from this same container lands on the item in the slot when it stacks and has room,
/// else on the first fitting stack in the container; else it stays at the slot.
pub open spec fn destination_of(
    m: ContainerMap,
    items: Map<ItemId, ItemFacts>,
    types: Map<u16, ItemTypeFacts>,
    cid: ItemId,
    index: i32,
    item_id: ItemId,
    source_parent: Option<ItemId>,
    flags: CylinderFlags,
) -> (i32, Result<ContainerDestResolution, ReturnValue>) {
    if !m.contains_key(cid) {
        (index, Err(ReturnValue::NotPossible))
    } else if !m[cid].unlocked {
        (index, Ok(ContainerDestResolution::StayHere { index, dest_stack_item: None }))
    } else if index == INDEX_MOVE_UP {
        match m[cid].parent_container {
            Some(p) => (INDEX_WHEREEVER, Ok(ContainerDestResolution::Redirect(Cylinder::Container { item_id: p, index: INDEX_WHEREEVER }))),
            None => (INDEX_WHEREEVER, Ok(ContainerDestResolution::StayHere { index: INDEX_WHEREEVER, dest_stack_item: None })),
        }
    } else {
        let idx = settled_index(m[cid], index);
        let list = m[cid].items@;
        if !items.contains_key(item_id) {
            (idx, Err(ReturnValue::NotPossible))
        } else if idx != INDEX_WHEREEVER && 0 <= idx < list.len() && m.contains_key(list[idx as int]) {
            (INDEX_WHEREEVER, Ok(ContainerDestResolution::Redirect(Cylinder::Container { item_id: list[idx as int], index: INDEX_WHEREEVER })))
        } else if !flags.ignore_auto_stack && is_stackable(items, types, item_id) && source_parent != Some(cid) {
            if idx != INDEX_WHEREEVER && 0 <= idx < list.len() && mergeable(items, types, item_id, list[idx as int])
                && has_room(items, list[idx as int]) {
                (idx, Ok(ContainerDestResolution::StayHere { index: idx, dest_stack_item: Some(list[idx as int]) }))
            } else {
                match first_stack(items, types, list, item_id, 0) {
                    Some(n) => (idx, Ok(ContainerDestResolution::StayHere { index: n as i32, dest_stack_item: Some(list[n]) })),
                    None => (idx, Ok(ContainerDestResolution::StayHere { index: idx, dest_stack_item: None })),
                }
            }
        } else {
            (idx, Ok(ContainerDestResolution::StayHere { index: idx, dest_stack_item: None }))
        }
    }
}

/// `first_stack` picks the first fitting stack: from slot `from` on, the slot it gives
/// holds another item that stacks with the moved one and has room, and no slot before it
/// (from `from` on) does; it gives `None` exactly when no such slot exists.
pub proof fn lemma_first_stack(items: Map<ItemId, ItemFacts>, types: Map<u16, ItemTypeFacts>, list: Seq<ItemId>, item_id: ItemId, from: int)
    requires
        0 <= from,
    ensures
        first_stack(items, types, list, item_id, from) matches Some(n) ==> from <= n < list.len()
            && list[n] != item_id && mergeable(items, types, item_id, list[n]) && has_room(items, list[n])
            && forall|j: int| from <= j < n ==> !(#[trigger] list[j] != item_id && mergeable(items, types, item_id, list[j])
                && has_room(items, list[j])),
        first_stack(items, types, list, item_id, from) is None ==>
            forall|j: int| from <= j < list.len() ==> !(#[trigger] list[j] != item_id && mergeable(items, types, item_id, list[j])
                && has_room(items, list[j])),
    decreases list.len() - from,
{
    if from < list.len() {
        lemma_first_stack(items, types, list, item_id, from + 1);
    }
}

/// Finds `first_stack` from slot `from` on.
fn find_stack(table: &ItemTable, list: &Vec<ItemId>, item_id: ItemId) -> (r: Option<usize>)
    requires
        list@.len() <= i32::MAX,
    ensures
        match r {
            Some(k) => k < list@.len() && first_stack(table.items@, table.types@, list@, item_id, 0) == Some(k as int),
            None => first_stack(table.items@, table.types@, list@, item_id, 0) is None,
        },
{
    let mut k: usize = 0;
    while k < list.len()
        invariant
            k <= list@.len(),
            first_stack(table.items@, table.types@, list@, item_id, 0) == first_stack(table.items@, table.types@, list@, item_id, k as int),
        decreases list@.len() - k,
    {
        let it = list[k];
        if it != item_id && table.items_stack_mergeable(item_id, it) && table.has_stack_room(it) {
            return Some(k);
        }
        k = k + 1;
    }
    None
}

pub fn container_query_destination(
    reg: &ContainerRegistry,
    table: &ItemTable,
    container_item_id: ItemId,
    index: &mut i32,
    item_id: ItemId,
    source_parent_container: Option<ItemId>,
    flags: CylinderFlags,
) -> (r: Result<ContainerDestResolution, ReturnValue>)
    requires
        reg.containers_view().contains_key(container_item_id) ==> reg.containers_view()[container_item_id].items@.len() <= i32::MAX,
    ensures
        (*final(index), r) == destination_of(reg.containers_view(), table.items@, table.types@, container_item_id,
            *old(index), item_id, source_parent_container, flags),
{
    let cont = match reg.get(container_item_id) {
        Some(c) => c,
        None => return Err(ReturnValue::NotPossible),
    };
    if !cont.unlocked {
        return Ok(ContainerDestResolution::StayHere { index: *index, dest_stack_item: None });
    }
    if *index == INDEX_MOVE_UP {
        *index = INDEX_WHEREEVER;
        return match cont.parent_container {
            Some(parent_id) => Ok(ContainerDestResolution::Redirect(Cylinder::Container { item_id: parent_id, index: INDEX_WHEREEVER })),
            None => Ok(ContainerDestResolution::StayHere { index: INDEX_WHEREEVER, dest_stack_item: None }),
        };
    }
    let cap = #[verifier::truncate] (cont.capacity as i32);
    if *index == INDEX_ADD_WHEREVER {
        *index = INDEX_WHEREEVER;
    } else if *index >= cap {
        *index = INDEX_WHEREEVER;
    }
    if table.item(item_id).is_none() {
        return Err(ReturnValue::NotPossible);
    }
    let mut dest_from_index: Option<ItemId> = None;
    if *index != INDEX_WHEREEVER && *index >= 0 && (*index as usize) < cont.items.len() {
        let at_slot = cont.items[*index as usize];
        if reg.get(at_slot).is_some() {
            *index = INDEX_WHEREEVER;
            return Ok(ContainerDestResolution::Redirect(Cylinder::Container { item_id: at_slot, index: INDEX_WHEREEVER }));
        }
        dest_from_index = Some(at_slot);
    }
    let auto_stack = !flags.ignore_auto_stack;
    let stackable = match table.item_type(item_id) { Some(t) => t.stackable, None => false };
    let same_parent = match source_parent_container { Some(p) => p == container_item_id, None => false };
    if auto_stack && stackable && !same_parent {
        if let Some(dest_id) = dest_from_index {
            if table.items_stack_mergeable(item_id, dest_id) && table.has_stack_room(dest_id) {
                return Ok(ContainerDestResolution::StayHere { index: *index, dest_stack_item: Some(dest_id) });
            }
        }
        match find_stack(table, &cont.items, item_id) {
            Some(n) => {
                return Ok(ContainerDestResolution::StayHere { index: n as i32, dest_stack_item: Some(cont.items[n]) });
            },
            None => {},
        }
    }
    Ok(ContainerDestResolution::StayHere { index: *index, dest_stack_item: None })
}

/// Most redirects a move into containers follows.
pub const MAX_REDIRECTS: u32 = 16;

/// Following a move from `to` through container redirects, at most `fuel` more: the
/// place it settles (the last redirect when the budget runs out) and the stack it
/// lands on.
pub open spec fn resolve_of(
    m: ContainerMap,
    items: Map<ItemId, ItemFacts>,
    types: Map<u16, ItemTypeFacts>,
    to: Cylinder,
    item_id: ItemId,
    source_parent: Option<ItemId>,
    flags: CylinderFlags,
    fuel: nat,
) -> Result<(Cylinder, Option<ItemId>), ReturnValue>
    decreases fuel,
{
    match to {
        Cylinder::Container { item_id: cid, index } => {
            match destination_of(m, items, types, cid, index, item_id, source_parent, flags).1 {
                Err(e) => Err(e),
                Ok(ContainerDestResolution::StayHere { index: idx, dest_stack_item }) =>
                    Ok((Cylinder::Container { item_id: cid, index: idx }, dest_stack_item)),
                Ok(ContainerDestResolution::Redirect(next)) => if fuel <= 1 {
                    Ok((next, None))
                } else {
                    resolve_of(m, items, types, next, item_id, source_parent, flags, (fuel - 1) as nat)
                },
            }
        },
        _ => Ok((to, None)),
    }
}

/// Where a move into `to` ends up (see `resolve_of`), following at most 16 redirects.
pub fn resolve_container_move_destination(
    reg: &ContainerRegistry,
    table: &ItemTable,
    to: Cylinder,
    item_id: ItemId,
    source_parent: Option<ItemId>,
    flags: CylinderFlags,
) -> (r: Result<(Cylinder, Option<ItemId>), ReturnValue>)
    requires
        forall|c: ItemId| #[trigger] reg.containers_view().contains_key(c) ==> reg.containers_view()[c].items@.len() <= i32::MAX,
    ensures
        r == resolve_of(reg.containers_view(), table.items@, table.types@, to, item_id, source_parent, flags, MAX_REDIRECTS as nat),
{
    let ghost m = reg.containers_view();
    let ghost target = resolve_of(m, table.items@, table.types@, to, item_id, source_parent, flags, MAX_REDIRECTS as nat);
    let mut cur = to;
    let mut floor_n: u32 = 0;
    loop
        invariant
            m == reg.containers_view(),
            forall|c: ItemId| #[trigger] m.contains_key(c) ==> m[c].items@.len() <= i32::MAX,
            floor_n < MAX_REDIRECTS,
            target == resolve_of(m, table.items@, table.types@, to, item_id, source_parent, flags, MAX_REDIRECTS as nat),
            resolve_of(m, table.items@, table.types@, cur, item_id, source_parent, flags, (MAX_REDIRECTS - floor_n) as nat) == target,
        decreases MAX_REDIRECTS - floor_n,
    {
        match cur {
            Cylinder::Container { item_id: cid, index } => {
                let mut idx = index;
                let res = match container_query_destination(reg, table, cid, &mut idx, item_id, source_parent, flags) {
                    Ok(x) => x,
                    Err(e) => return Err(e),
                };
                match res {
                    ContainerDestResolution::Redirect(next) => {
                        cur = next;
                        floor_n = floor_n + 1;
                        if floor_n >= MAX_REDIRECTS {
                            return Ok((cur, None));
                        }
                    },
                    ContainerDestResolution::StayHere { index: i, dest_stack_item } => {
                        return Ok((Cylinder::Container { item_id: cid, index: i }, dest_stack_item));
                    },
                }
            },
            _ => {
                return Ok((cur, None));
            },
        }
    }
}

} // verus!
