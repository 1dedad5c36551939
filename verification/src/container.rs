//! Containers (bags, chests, depots, inboxes, browse fields), the recursive item
//! iterator over nested containers, and the per-player registry of open container
//! windows (client container ids 0 to 15).

use vstd::prelude::*;
use std::collections::HashMap;
use crate::ids::{CreatureId, ItemId};
use crate::maps::hash_map_get_mut;
use vstd::std_specs::iter::IteratorSpec;

verus! {

broadcast use vstd::std_specs::hash::group_hash_axioms;

/// Open container window: the container shown and its first visible slot (scroll).
#[derive(Debug, Clone, Copy, PartialEq, Eq, Structural)]
pub struct OpenContainer {
    pub container_id: ItemId,
    pub first_index: u16,
}

/// Most simultaneous container windows per player (client container ids 0 to 15).
pub const MAX_CONTAINER_WINDOWS: u8 = 16;

/// Why a container operation was refused.
#[derive(Debug, Clone, Copy, PartialEq, Eq, Structural)]
pub enum ContainerError {
    /// The container is full.
    Full,
    /// The slot index is out of range.
    InvalidSlot,
    /// The item is not in the container.
    ItemNotFound,
    /// The container is locked.
    Locked,
    /// The item cannot be added (too heavy, or it would create a cycle).
    CannotAdd,
}

/// Kind of container, for behaviour and client UI.
#[derive(Debug, Clone, Copy, PartialEq, Eq, Structural)]
pub enum ContainerType {
    Normal,
    Depot,
    Inbox,
    StoreInbox,
    BrowseField,
}

/// An item that holds items, in order (first = bottom, last = top).
#[derive(Debug, Clone)]
pub struct Container {
    /// The container item's own id.
    pub item_id: ItemId,
    pub container_type: ContainerType,
    pub items: Vec<ItemId>,
    /// Number of item slots.
    pub capacity: u32,
    /// Whether items may be added or removed.
    pub unlocked: bool,
    /// Whether the container shows more items than visible slots (pages).
    pub pagination: bool,
    /// The container holding this one, when nested.
    pub parent_container: Option<ItemId>,
    /// Players viewing this container.
    pub open_by: Vec<CreatureId>,
    /// Recursive count of held items.
    pub total_item_count: u32,
    /// Sum of the weights of all held items.
    pub total_weight: u32,
    /// Town of a depot chest.
    pub depot_town_id: Option<u32>,
    /// Town of a map depot locker.
    pub depot_locker_town_id: Option<u32>,
    /// Item limit shared across a depot.
    pub max_depot_items: u32,
}

/// `n` converted to `u32` (its low 32 bits).
pub open spec fn low32(n: int) -> int {
    n % 0x1_0000_0000
}

fn usize_to_u32_low(n: usize) -> (r: u32)
    ensures
        r == low32(n as int),
{
    let w = n as u64;
    let r = #[verifier::truncate] (w as u32);
    assert(r == w % 0x1_0000_0000) by (bit_vector)
        requires r == #[verifier::truncate] (w as u32);
    r
}

/// `s` without any occurrence of `x`, order kept.
pub open spec fn remove_all(s: Seq<CreatureId>, x: CreatureId) -> Seq<CreatureId>
    decreases s.len(),
{
    if s.len() == 0 {
        s
    } else {
        let r = remove_all(s.drop_last(), x);
        if s.last() == x { r } else { r.push(s.last()) }
    }
}

/// `s` with `x` appended unless already present.
pub open spec fn add_once(s: Seq<CreatureId>, x: CreatureId) -> Seq<CreatureId> {
    if s.contains(x) { s } else { s.push(x) }
}

/// What a client is shown of a container it opens.
#[derive(Debug, Clone)]
pub struct OpenWindow {
    /// Slots shown (the capacity, at most 255).
    pub capacity: u8,
    /// Number of items held (low 16 bits).
    pub total_size: u16,
    /// Index of the first item shown.
    pub first_index: u16,
    /// The items shown, in order.
    pub items: Vec<ItemId>,
    pub unlocked: bool,
    pub pagination: bool,
}

impl Container {
    /// All fields but `items` agree.
    pub open spec fn same_but_items(self, other: Container) -> bool {
        &&& self.item_id == other.item_id
        &&& self.container_type == other.container_type
        &&& self.capacity == other.capacity
        &&& self.unlocked == other.unlocked
        &&& self.pagination == other.pagination
        &&& self.parent_container == other.parent_container
        &&& self.open_by@ == other.open_by@
        &&& self.total_item_count == other.total_item_count
        &&& self.total_weight == other.total_weight
        &&& self.depot_town_id == other.depot_town_id
        &&& self.depot_locker_town_id == other.depot_locker_town_id
        &&& self.max_depot_items == other.max_depot_items
    }

    /// All fields but `open_by` agree.
    pub open spec fn same_but_viewers(self, other: Container) -> bool {
        &&& self.item_id == other.item_id
        &&& self.container_type == other.container_type
        &&& self.items@ == other.items@
        &&& self.capacity == other.capacity
        &&& self.unlocked == other.unlocked
        &&& self.pagination == other.pagination
        &&& self.parent_container == other.parent_container
        &&& self.total_item_count == other.total_item_count
        &&& self.total_weight == other.total_weight
        &&& self.depot_town_id == other.depot_town_id
        &&& self.depot_locker_town_id == other.depot_locker_town_id
        &&& self.max_depot_items == other.max_depot_items
    }

    /// A fresh, empty, unlocked normal container of the given capacity.
    pub open spec fn spec_fresh(self, item_id: ItemId, capacity: u32) -> bool {
        &&& self.item_id == item_id
        &&& self.items@.len() == 0
        &&& self.capacity == capacity
        &&& self.unlocked
        &&& self.parent_container is None
        &&& self.open_by@.len() == 0
        &&& self.total_item_count == 0
        &&& self.total_weight == 0
        &&& self.depot_locker_town_id is None
    }

    /// The item count (low 32 bits) reached the capacity.
    pub open spec fn spec_is_full(self) -> bool {
        low32(self.items@.len() as int) >= self.capacity
    }

    pub fn new(item_id: ItemId, capacity: u32) -> (c: Container)
        ensures
            c.spec_fresh(item_id, capacity),
            c.container_type == ContainerType::Normal,
            !c.pagination,
            c.depot_town_id is None,
            c.max_depot_items == 0,
    {
        Container {
            item_id,
            container_type: ContainerType::Normal,
            items: Vec::new(),
            capacity,
            unlocked: true,
            pagination: false,
            parent_container: None,
            open_by: Vec::new(),
            total_item_count: 0,
            total_weight: 0,
            depot_town_id: None,
            depot_locker_town_id: None,
            max_depot_items: 0,
        }
    }

    /// A depot chest of a town.
    pub fn new_depot(item_id: ItemId, depot_town_id: u32, capacity: u32, max_depot_items: u32) -> (c: Container)
        ensures
            c.spec_fresh(item_id, capacity),
            c.container_type == ContainerType::Depot,
            !c.pagination,
            c.depot_town_id == Some(depot_town_id),
            c.max_depot_items == max_depot_items,
    {
        let mut container = Container::new(item_id, capacity);
        container.container_type = ContainerType::Depot;
        container.depot_town_id = Some(depot_town_id);
        container.max_depot_items = max_depot_items;
        container
    }

    pub fn new_inbox(item_id: ItemId, capacity: u32) -> (c: Container)
        ensures
            c.spec_fresh(item_id, capacity),
            c.container_type == ContainerType::Inbox,
            !c.pagination,
            c.depot_town_id is None,
            c.max_depot_items == 0,
    {
        let mut container = Container::new(item_id, capacity);
        container.container_type = ContainerType::Inbox;
        container
    }

    pub fn new_store_inbox(item_id: ItemId, capacity: u32) -> (c: Container)
        ensures
            c.spec_fresh(item_id, capacity),
            c.container_type == ContainerType::StoreInbox,
            !c.pagination,
            c.depot_town_id is None,
            c.max_depot_items == 0,
    {
        let mut container = Container::new(item_id, capacity);
        container.container_type = ContainerType::StoreInbox;
        container
    }

    /// A browse field (a tile viewed as a container): 64 slots, always paginated.
    pub fn new_browse_field(item_id: ItemId, _tile_pos: (u16, u16, u8)) -> (c: Container)
        ensures
            c.spec_fresh(item_id, 64),
            c.container_type == ContainerType::BrowseField,
            c.pagination,
            c.depot_town_id is None,
            c.max_depot_items == 0,
    {
        let mut container = Container::new(item_id, 64);
        container.container_type = ContainerType::BrowseField;
        container.pagination = true;
        container
    }

    /// Number of items directly in the container.
    pub fn size(&self) -> (n: usize)
        ensures
            n == self.items@.len(),
    {
        self.items.len()
    }

    pub fn is_empty(&self) -> (r: bool)
        ensures
            r == (self.items@.len() == 0),
    {
        self.items.len() == 0
    }

    pub fn is_full(&self) -> (r: bool)
        ensures
            r == self.spec_is_full(),
    {
        usize_to_u32_low(self.items.len()) >= self.capacity
    }

    /// Free slots: capacity minus item count (low 32 bits), not below 0.
    pub fn available_slots(&self) -> (n: u32)
        ensures
            n == (if self.capacity >= low32(self.items@.len() as int) { self.capacity - low32(self.items@.len() as int) } else { 0 }),
    {
        self.capacity.saturating_sub(usize_to_u32_low(self.items.len()))
    }

    pub fn has_parent(&self) -> (r: bool)
        ensures
            r == (self.parent_container is Some),
    {
        self.parent_container.is_some()
    }

    /// The item in slot `index` (0 = bottom).
    pub fn get_item(&self, index: usize) -> (r: Option<ItemId>)
        ensures
            r == (if index < self.items@.len() { Some(self.items@[index as int]) } else { None::<ItemId> }),
    {
        if index < self.items.len() {
            Some(self.items[index])
        } else {
            None
        }
    }

    /// Slot of the first occurrence of `item_id`.
    pub fn index_of(&self, item_id: ItemId) -> (r: Option<usize>)
        ensures
            match r {
                Some(i) => i < self.items@.len() && self.items@[i as int] == item_id
                    && forall|j: int| 0 <= j < i ==> self.items@[j] != item_id,
                None => !self.items@.contains(item_id),
            },
    {
        let mut i: usize = 0;
        while i < self.items.len()
            invariant
                0 <= i <= self.items@.len(),
                forall|j: int| 0 <= j < i ==> self.items@[j] != item_id,
            decreases self.items@.len() - i,
        {
            if self.items[i] == item_id {
                return Some(i);
            }
            i = i + 1;
        }
        None
    }

    /// `item_id` is a direct child.
    pub fn contains(&self, item_id: ItemId) -> (r: bool)
        ensures
            r == self.items@.contains(item_id),
    {
        self.index_of(item_id).is_some()
    }

    /// Adds an item on top (structural only).
    pub fn add_item(&mut self, item_id: ItemId) -> (r: Result<(), ContainerError>)
        ensures
            final(self).same_but_items(*old(self)),
            r == (if !old(self).unlocked { Err(ContainerError::Locked) } else if old(self).spec_is_full() {
                Err(ContainerError::Full) } else { Ok(()) }),
            r is Ok ==> final(self).items@ == old(self).items@.push(item_id),
            r is Err ==> final(self).items@ == old(self).items@,
    {
        if !self.unlocked {
            return Err(ContainerError::Locked);
        }
        if self.is_full() {
            return Err(ContainerError::Full);
        }
        self.items.push(item_id);
        Ok(())
    }

    /// Inserts an item at slot `index` (at most the item count).
    pub fn insert_item(&mut self, index: usize, item_id: ItemId) -> (r: Result<(), ContainerError>)
        ensures
            final(self).same_but_items(*old(self)),
            r == (if !old(self).unlocked { Err(ContainerError::Locked) } else if old(self).spec_is_full() {
                Err(ContainerError::Full) } else if index > old(self).items@.len() { Err(ContainerError::InvalidSlot) } else { Ok(()) }),
            r is Ok ==> final(self).items@ == old(self).items@.insert(index as int, item_id),
            r is Err ==> final(self).items@ == old(self).items@,
    {
        if !self.unlocked {
            return Err(ContainerError::Locked);
        }
        if self.is_full() {
            return Err(ContainerError::Full);
        }
        if index > self.items.len() {
            return Err(ContainerError::InvalidSlot);
        }
        self.items.insert(index, item_id);
        Ok(())
    }

    /// Removes and returns the item in slot `index`.
    pub fn remove_item(&mut self, index: usize) -> (r: Result<ItemId, ContainerError>)
        ensures
            final(self).same_but_items(*old(self)),
            r == (if !old(self).unlocked { Err(ContainerError::Locked) } else if index >= old(self).items@.len() {
                Err(ContainerError::InvalidSlot) } else { Ok(old(self).items@[index as int]) }),
            r is Ok ==> final(self).items@ == old(self).items@.remove(index as int),
            r is Err ==> final(self).items@ == old(self).items@,
    {
        if !self.unlocked {
            return Err(ContainerError::Locked);
        }
        if index >= self.items.len() {
            return Err(ContainerError::InvalidSlot);
        }
        let item_id = self.items.remove(index);
        Ok(item_id)
    }

    /// Removes the first occurrence of `item_id`; returns its slot.
    pub fn remove_specific_item(&mut self, item_id: ItemId) -> (r: Result<usize, ContainerError>)
        ensures
            final(self).same_but_items(*old(self)),
            !old(self).unlocked ==> r == Err::<usize, ContainerError>(ContainerError::Locked),
            old(self).unlocked && !old(self).items@.contains(item_id) ==> r == Err::<usize, ContainerError>(ContainerError::ItemNotFound),
            old(self).unlocked && old(self).items@.contains(item_id) ==> (r matches Ok(i) && i < old(self).items@.len()
                && old(self).items@[i as int] == item_id && (forall|j: int| 0 <= j < i ==> old(self).items@[j] != item_id)
                && final(self).items@ == old(self).items@.remove(i as int)),
            r is Err ==> final(self).items@ == old(self).items@,
    {
        if !self.unlocked {
            return Err(ContainerError::Locked);
        }
        match self.index_of(item_id) {
            Some(index) => {
                self.items.remove(index);
                Ok(index)
            },
            None => Err(ContainerError::ItemNotFound),
        }
    }

    /// Replaces the item in slot `index`; returns the old one (lock not checked).
    pub fn update_item(&mut self, index: usize, new_item_id: ItemId) -> (r: Result<ItemId, ContainerError>)
        ensures
            final(self).same_but_items(*old(self)),
            r == (if index >= old(self).items@.len() { Err(ContainerError::InvalidSlot) } else { Ok(old(self).items@[index as int]) }),
            r is Ok ==> final(self).items@ == old(self).items@.update(index as int, new_item_id),
            r is Err ==> final(self).items@ == old(self).items@,
    {
        if index >= self.items.len() {
            return Err(ContainerError::InvalidSlot);
        }
        let old_item_id = self.items[index];
        self.items.set(index, new_item_id);
        Ok(old_item_id)
    }

    /// Swaps the items of two slots (lock not checked).
    pub fn swap_items(&mut self, index1: usize, index2: usize) -> (r: Result<(), ContainerError>)
        ensures
            final(self).same_but_items(*old(self)),
            r == (if index1 >= old(self).items@.len() || index2 >= old(self).items@.len() {
                Err(ContainerError::InvalidSlot) } else { Ok(()) }),
            r is Ok ==> final(self).items@ == old(self).items@.update(index1 as int, old(self).items@[index2 as int]).update(
                index2 as int, old(self).items@[index1 as int]),
            r is Err ==> final(self).items@ == old(self).items@,
    {
        if index1 >= self.items.len() || index2 >= self.items.len() {
            return Err(ContainerError::InvalidSlot);
        }
        let a = self.items[index1];
        let b = self.items[index2];
        self.items.set(index1, b);
        self.items.set(index2, a);
        Ok(())
    }

    /// Registers `player` as a viewer (once).
    pub fn add_viewer(&mut self, player: CreatureId)
        ensures
            final(self).same_but_viewers(*old(self)),
            final(self).open_by@ == add_once(old(self).open_by@, player),
    {
        if !self.is_viewer(player) {
            self.open_by.push(player);
        }
    }

    /// Unregisters `player` as a viewer (every occurrence).
    pub fn remove_viewer(&mut self, player: CreatureId)
        ensures
            final(self).same_but_viewers(*old(self)),
            final(self).open_by@ == remove_all(old(self).open_by@, player),
    {
        let mut kept: Vec<CreatureId> = Vec::new();
        let mut i: usize = 0;
        while i < self.open_by.len()
            invariant
                0 <= i <= self.open_by@.len(),
                kept@ == remove_all(self.open_by@.take(i as int), player),
            decreases self.open_by@.len() - i,
        {
            let v = self.open_by[i];
            proof {
                assert(self.open_by@.take(i as int + 1).drop_last() =~= self.open_by@.take(i as int));
            }
            if v != player {
                kept.push(v);
            }
            i = i + 1;
        }
        assert(self.open_by@.take(self.open_by@.len() as int) =~= self.open_by@);
        self.open_by = kept;
    }

    pub fn is_viewer(&self, player: CreatureId) -> (r: bool)
        ensures
            r == self.open_by@.contains(player),
    {
        let mut i: usize = 0;
        while i < self.open_by.len()
            invariant
                0 <= i <= self.open_by@.len(),
                forall|j: int| 0 <= j < i ==> self.open_by@[j] != player,
            decreases self.open_by@.len() - i,
        {
            if self.open_by[i] == player {
                return true;
            }
            i = i + 1;
        }
        false
    }

    pub fn viewer_count(&self) -> (n: usize)
        ensures
            n == self.open_by@.len(),
    {
        self.open_by.len()
    }

    pub fn has_viewers(&self) -> (r: bool)
        ensures
            r == (self.open_by@.len() > 0),
    {
        self.open_by.len() != 0
    }

    /// Items of one page: up to `count` items from slot `start_index` on.
    pub fn get_page(&self, start_index: usize, count: usize) -> (v: Vec<ItemId>)
        ensures
            v@ == (if start_index >= self.items@.len() { Seq::<ItemId>::empty() } else {
                self.items@.subrange(start_index as int,
                    if start_index + count > self.items@.len() { self.items@.len() as int } else { start_index + count })
            }),
    {
        let mut out: Vec<ItemId> = Vec::new();
        let len = self.items.len();
        if start_index >= len {
            return out;
        }
        let end = if count > len - start_index { len } else { start_index + count };
        let mut i = start_index;
        while i < end
            invariant
                start_index <= i <= end <= len,
                len == self.items@.len(),
                out@ == self.items@.subrange(start_index as int, i as int),
            decreases end - i,
        {
            out.push(self.items[i]);
            i = i + 1;
            assert(out@ =~= self.items@.subrange(start_index as int, i as int));
        }
        out
    }

    /// Total number of items (for the pagination UI).
    pub fn total_items(&self) -> (n: usize)
        ensures
            n == self.items@.len(),
    {
        self.items.len()
    }

    /// Whether an item could be added: not when locked, not when full.
    pub fn query_add(&self, _index: i32, _item_id: ItemId) -> (r: Result<(), ContainerError>)
        ensures
            r == (if !self.unlocked { Err(ContainerError::Locked) } else if self.spec_is_full() {
                Err(ContainerError::Full) } else { Ok(()) }),
    {
        if !self.unlocked {
            return Err(ContainerError::Locked);
        }
        if self.is_full() {
            return Err(ContainerError::Full);
        }
        Ok(())
    }

    /// The window a client gets when it opens this container at `first_index`: the
    /// capacity shown (at most 255), the item count (its low 16 bits), the first index
    /// (at most the count), and the items shown from there, as many as the capacity
    /// allows.
    pub fn open_window(&self, first_index: u16) -> (w: OpenWindow)
        ensures
            w.capacity == (if self.capacity < 255 { self.capacity } else { 255 }),
            w.total_size == self.items@.len() % 0x10000,
            w.first_index == (if first_index < w.total_size { first_index } else { w.total_size }),
            w.items@ == self.items@.subrange(w.first_index as int, w.first_index + (if w.total_size - w.first_index < w.capacity {
                w.total_size - w.first_index } else { w.capacity as int })),
            w.unlocked == self.unlocked,
            w.pagination == self.pagination,
    {
        let capacity: u8 = if self.capacity < 255 { self.capacity as u8 } else { 255 };
        let total: u16 = (self.items.len() % 0x10000) as u16;
        let first: u16 = if first_index < total { first_index } else { total };
        let remain: u16 = total - first;
        let n_show: u16 = if remain < capacity as u16 { remain } else { capacity as u16 };
        let end: usize = first as usize + n_show as usize;
        let mut items: Vec<ItemId> = Vec::new();
        let mut i: usize = first as usize;
        while i < end
            invariant
                first <= i <= end,
                end <= self.items@.len(),
                items@ == self.items@.subrange(first as int, i as int),
            decreases end - i,
        {
            items.push(self.items[i]);
            i = i + 1;
            assert(items@ =~= self.items@.subrange(first as int, i as int));
        }
        OpenWindow { capacity, total_size: total, first_index: first, items, unlocked: self.unlocked, pagination: self.pagination }
    }

    /// Whether an item could be removed: not when locked.
    pub fn query_remove(&self, _item_id: ItemId) -> (r: Result<(), ContainerError>)
        ensures
            r == (if !self.unlocked { Err(ContainerError::Locked) } else { Ok(()) }),
    {
        if !self.unlocked {
            return Err(ContainerError::Locked);
        }
        Ok(())
    }
}


/// Containers keyed by their item id.
pub type ContainerMap = Map<ItemId, Container>;

/// `new` is `old` with `p` removed from the viewers of container `id` (when registered).
pub open spec fn viewers_removed(old: ContainerMap, new: ContainerMap, id: ItemId, p: CreatureId) -> bool {
    &&& new.dom() == old.dom()
    &&& forall|k: ItemId| #[trigger] old.contains_key(k) && k != id ==> new[k] == old[k]
    &&& old.contains_key(id) ==> new[id].same_but_viewers(old[id]) && new[id].open_by@ == remove_all(old[id].open_by@, p)
}

/// `new` is `old` with `p` added once to the viewers of container `id` (when registered).
pub open spec fn viewer_added(old: ContainerMap, new: ContainerMap, id: ItemId, p: CreatureId) -> bool {
    &&& new.dom() == old.dom()
    &&& forall|k: ItemId| #[trigger] old.contains_key(k) && k != id ==> new[k] == old[k]
    &&& old.contains_key(id) ==> new[id].same_but_viewers(old[id]) && new[id].open_by@ == add_once(old[id].open_by@, p)
}

/// Window entries `(cid, container)` of cids `0..n` present in `m`, by cid.
pub open spec fn spec_entries(m: Map<u8, OpenContainer>, n: nat) -> Seq<(u8, ItemId)>
    decreases n,
{
    if n == 0 {
        Seq::empty()
    } else {
        let rest = spec_entries(m, (n - 1) as nat);
        let c = (n - 1) as u8;
        if m.contains_key(c) { rest.push((c, m[c].container_id)) } else { rest }
    }
}

fn remove_viewer_from(containers: &mut HashMap<ItemId, Container>, id: ItemId, p: CreatureId)
    ensures
        viewers_removed(old(containers)@, final(containers)@, id, p),
{
    let ghost old_m = containers@;
    match hash_map_get_mut(containers, &id) {
        Some(c) => c.remove_viewer(p),
        None => {},
    }
    assert(containers@.dom() =~= old_m.dom());
}

fn add_viewer_to(containers: &mut HashMap<ItemId, Container>, id: ItemId, p: CreatureId)
    ensures
        viewer_added(old(containers)@, final(containers)@, id, p),
{
    let ghost old_m = containers@;
    match hash_map_get_mut(containers, &id) {
        Some(c) => c.add_viewer(p),
        None => {},
    }
    assert(containers@.dom() =~= old_m.dom());
}


/// Lowest free client cid from `n` up to 15.
pub open spec fn spec_first_free(m: Map<u8, OpenContainer>, n: nat) -> Option<u8>
    decreases 16 - n,
{
    if n >= 16 {
        None
    } else if !m.contains_key(n as u8) {
        Some(n as u8)
    } else {
        spec_first_free(m, n + 1)
    }
}

/// The cid that opening a window uses: a preferred cid below 16, else the lowest free one.
pub open spec fn spec_choose_cid(m: Map<u8, OpenContainer>, preferred: Option<u8>) -> Option<u8> {
    match preferred {
        Some(pc) => if pc < 16 { Some(pc) } else { spec_first_free(m, 0) },
        None => spec_first_free(m, 0),
    }
}

/// The windows of `m` that do not show container `id`.
pub open spec fn keep_windows(m: Map<u8, OpenContainer>, id: ItemId) -> Map<u8, OpenContainer> {
    Map::new(|c: u8| m.contains_key(c) && m[c].container_id != id, |c: u8| m[c])
}

/// Cids below `n` whose window shows container `id`, ascending.
pub open spec fn closing_cids(m: Map<u8, OpenContainer>, id: ItemId, n: nat) -> Seq<u8>
    decreases n,
{
    if n == 0 {
        Seq::empty()
    } else {
        let rest = closing_cids(m, id, (n - 1) as nat);
        let c = (n - 1) as u8;
        if m.contains_key(c) && m[c].container_id == id { rest.push(c) } else { rest }
    }
}

/// Player `p` has a window `c` showing container `id`.
pub open spec fn shows(o: Map<CreatureId, Map<u8, OpenContainer>>, p: CreatureId, c: u8, id: ItemId) -> bool {
    o.contains_key(p) && o[p].contains_key(c) && o[p][c].container_id == id
}

/// `s` without the elements of `xs`, order kept.
pub open spec fn without(s: Seq<CreatureId>, xs: Set<CreatureId>) -> Seq<CreatureId>
    decreases s.len(),
{
    if s.len() == 0 {
        s
    } else {
        let r = without(s.drop_last(), xs);
        if xs.contains(s.last()) { r } else { r.push(s.last()) }
    }
}

proof fn lemma_without_insert(s: Seq<CreatureId>, xs: Set<CreatureId>, x: CreatureId)
    ensures
        remove_all(without(s, xs), x) == without(s, xs.insert(x)),
    decreases s.len(),
{
    if s.len() > 0 {
        lemma_without_insert(s.drop_last(), xs, x);
        lemma_remove_all_push(without(s.drop_last(), xs), s.last(), x);
    }
}

proof fn lemma_remove_all_push(s: Seq<CreatureId>, y: CreatureId, x: CreatureId)
    ensures
        remove_all(s.push(y), x) == (if y == x { remove_all(s, x) } else { remove_all(s, x).push(y) }),
{
    assert(s.push(y).drop_last() =~= s);
}

proof fn lemma_without_empty(s: Seq<CreatureId>)
    ensures
        without(s, Set::empty()) == s,
    decreases s.len(),
{
    if s.len() > 0 {
        lemma_without_empty(s.drop_last());
        assert(s.drop_last().push(s.last()) =~= s);
    }
}

proof fn lemma_remove_all_idem(s: Seq<CreatureId>, x: CreatureId)
    ensures
        remove_all(remove_all(s, x), x) == remove_all(s, x),
    decreases s.len(),
{
    if s.len() > 0 {
        lemma_remove_all_idem(s.drop_last(), x);
        if s.last() != x {
            lemma_remove_all_push(remove_all(s.drop_last(), x), s.last(), x);
        }
    }
}

/// `p` removed from the viewers of every container in `ids`; all else unchanged.
pub open spec fn viewers_removed_from(old: ContainerMap, new: ContainerMap, ids: Seq<ItemId>, p: CreatureId) -> bool {
    &&& new.dom() == old.dom()
    &&& forall|k: ItemId| #[trigger] old.contains_key(k) && !ids.contains(k) ==> new[k] == old[k]
    &&& forall|k: ItemId| #[trigger] old.contains_key(k) && ids.contains(k) ==> new[k].same_but_viewers(old[k])
        && new[k].open_by@ == remove_all(old[k].open_by@, p)
}

/// Registered containers and, per player, the open container windows.
#[derive(Debug)]
pub struct ContainerRegistry {
    containers: HashMap<ItemId, Container>,
    player_open: HashMap<CreatureId, HashMap<u8, OpenContainer>>,
}

impl Default for ContainerRegistry {
    fn default() -> (r: ContainerRegistry)
        ensures
            r.wf(),
            r.containers_view() == Map::<ItemId, Container>::empty(),
            r.open_view() == Map::<CreatureId, Map<u8, OpenContainer>>::empty(),
    {
        ContainerRegistry::new()
    }
}

impl ContainerRegistry {
    /// Registered containers by item id.
    pub closed spec fn containers_view(self) -> ContainerMap {
        self.containers@
    }

    /// A registry holds finitely many containers.
    pub proof fn lemma_containers_finite(self)
        ensures
            self.containers_view().dom().finite(),
    {
        vstd::std_specs::hash::axiom_hashmap_view_finite_dom(self.containers);
    }

    /// Open windows: player -> client cid -> window.
    pub closed spec fn open_view(self) -> Map<CreatureId, Map<u8, OpenContainer>> {
        self.player_open@.map_values(|m: HashMap<u8, OpenContainer>| m@)
    }

    /// Every client cid in use is below 16.
    pub closed spec fn wf(self) -> bool {
        forall|p: CreatureId, c: u8| #[trigger] self.player_open@.contains_key(p) && #[trigger] self.player_open@[p]@.contains_key(c) ==> c < 16
    }

    /// The windows of `player` (none when the player has no entry).
    pub open spec fn windows(self, player: CreatureId) -> Map<u8, OpenContainer> {
        if self.open_view().contains_key(player) { self.open_view()[player] } else { Map::empty() }
    }

    pub fn new() -> (r: ContainerRegistry)
        ensures
            r.wf(),
            r.containers_view() == Map::<ItemId, Container>::empty(),
            r.open_view() == Map::<CreatureId, Map<u8, OpenContainer>>::empty(),
    {
        let r = ContainerRegistry { containers: HashMap::new(), player_open: HashMap::new() };
        assert(r.open_view() =~= Map::<CreatureId, Map<u8, OpenContainer>>::empty());
        r
    }

    /// Lowest client cid `0..16` not in use.
    fn alloc_free_cid(map: &HashMap<u8, OpenContainer>) -> (r: Option<u8>)
        ensures
            match r {
                Some(c) => c < 16 && !map@.contains_key(c) && forall|d: u8| d < c ==> map@.contains_key(d),
                None => forall|d: u8| d < 16 ==> map@.contains_key(d),
            },
    {
        let mut c: u8 = 0;
        while c < MAX_CONTAINER_WINDOWS
            invariant
                c <= 16,
                forall|d: u8| d < c ==> map@.contains_key(d),
            decreases 16 - c,
        {
            if !map.contains_key(&c) {
                return Some(c);
            }
            c = c + 1;
        }
        None
    }

    /// The ids of all registered containers, each once.
    pub fn registered_container_ids(&self) -> (v: Vec<ItemId>)
        ensures
            v@.to_set() == self.containers_view().dom(),
            v@.no_duplicates(),
    {
        let mut v: Vec<ItemId> = Vec::new();
        let ghost ks = vstd::std_specs::hash::spec_keys_iter(&self.containers).remaining();
        proof {
            vstd::std_specs::hash::axiom_spec_keys_iter(&self.containers);
        }
        for k in it: self.containers.keys()
            invariant
                it.seq() == ks,
                v@.len() == it.index(),
                forall|i: int| 0 <= i < v@.len() ==> v@[i] == *ks[i],
        {
            v.push(*k);
        }
        proof {
            assert(v@ =~= ks.unref());
        }
        v
    }

    /// The player's windows `(cid, container)`, by cid.
    pub fn open_container_entries(&self, player: CreatureId) -> (v: Vec<(u8, ItemId)>)
        ensures
            v@ == spec_entries(self.windows(player), 16),
    {
        let mut out: Vec<(u8, ItemId)> = Vec::new();
        match self.player_open.get(&player) {
            None => {
                proof { lemma_entries_empty(16); }
                out
            },
            Some(m) => {
                let mut c: u8 = 0;
                while c < MAX_CONTAINER_WINDOWS
                    invariant
                        c <= 16,
                        m@ == self.windows(player),
                        out@ == spec_entries(m@, c as nat),
                    decreases 16 - c,
                {
                    match m.get(&c) {
                        Some(oc) => out.push((c, oc.container_id)),
                        None => {},
                    }
                    c = c + 1;
                }
                out
            },
        }
    }

    /// Registers (or replaces) a container under its item id.
    pub fn register(&mut self, container: Container) -> (id: ItemId)
        requires
            old(self).wf(),
        ensures
            final(self).wf(),
            id == container.item_id,
            final(self).containers_view() == old(self).containers_view().insert(id, container),
            final(self).open_view() == old(self).open_view(),
    {
        let id = container.item_id;
        self.containers.insert(id, container);
        id
    }

    pub fn get(&self, item_id: ItemId) -> (r: Option<&Container>)
        ensures
            match r {
                Some(c) => self.containers_view().contains_key(item_id) && *c == self.containers_view()[item_id],
                None => !self.containers_view().contains_key(item_id),
            },
    {
        self.containers.get(&item_id)
    }

    pub fn get_mut(&mut self, item_id: ItemId) -> (r: Option<&mut Container>)
        ensures
            final(self).open_view() == old(self).open_view(),
            final(self).wf() == old(self).wf(),
            match r {
                Some(c) => old(self).containers_view().contains_key(item_id) && *c == old(self).containers_view()[item_id]
                    && final(self).containers_view() == old(self).containers_view().insert(item_id, *final(c)),
                None => !old(self).containers_view().contains_key(item_id)
                    && final(self).containers_view() == old(self).containers_view(),
            },
    {
        hash_map_get_mut(&mut self.containers, &item_id)
    }
}

proof fn lemma_entries_empty(n: nat)
    ensures
        spec_entries(Map::<u8, OpenContainer>::empty(), n) == Seq::<(u8, ItemId)>::empty(),
    decreases n,
{
    if n > 0 {
        lemma_entries_empty((n - 1) as nat);
    }
}

/// The container ids of window entries.
pub open spec fn entry_ids(s: Seq<(u8, ItemId)>) -> Seq<ItemId> {
    s.map_values(|e: (u8, ItemId)| e.1)
}

/// The open-window view of a raw player map.
pub open spec fn ov(po: Map<CreatureId, HashMap<u8, OpenContainer>>) -> Map<CreatureId, Map<u8, OpenContainer>> {
    po.map_values(|m: HashMap<u8, OpenContainer>| m@)
}

/// Windows after closing window `c` of player `p`: the player's entry goes away when
/// it was the last window.
pub open spec fn spec_after_close(o: Map<CreatureId, Map<u8, OpenContainer>>, p: CreatureId, c: u8) -> Map<CreatureId, Map<u8, OpenContainer>> {
    let m2 = o[p].remove(c);
    if m2.is_empty() { o.remove(p) } else { o.insert(p, m2) }
}

proof fn lemma_first_free_step(m: Map<u8, OpenContainer>, n: nat)
    requires
        n < 16,
        m.contains_key(n as u8),
    ensures
        spec_first_free(m, 0) == spec_first_free(m, n) ==> spec_first_free(m, 0) == spec_first_free(m, n + 1),
{
}

impl ContainerRegistry {
    /// Lowest free cid, as [`spec_first_free`] from 0.
    fn first_free_cid(map: &HashMap<u8, OpenContainer>) -> (r: Option<u8>)
        ensures
            r == spec_first_free(map@, 0),
            r matches Some(c) ==> c < 16,
    {
        let mut c: u8 = 0;
        while c < MAX_CONTAINER_WINDOWS
            invariant
                c <= 16,
                spec_first_free(map@, 0) == spec_first_free(map@, c as nat),
            decreases 16 - c,
        {
            if !map.contains_key(&c) {
                return Some(c);
            }
            proof { lemma_first_free_step(map@, c as nat); }
            c = c + 1;
        }
        None
    }

    /// Closes window `cid` of `player`; false when there is none.
    pub fn close_container_for_player(&mut self, player: CreatureId, cid: u8) -> (r: bool)
        requires
            old(self).wf(),
        ensures
            final(self).wf(),
            r == (old(self).open_view().contains_key(player) && old(self).open_view()[player].contains_key(cid)),
            r ==> final(self).open_view() == spec_after_close(old(self).open_view(), player, cid)
                && viewers_removed(old(self).containers_view(), final(self).containers_view(),
                    old(self).open_view()[player][cid].container_id, player),
            !r ==> final(self).open_view() == old(self).open_view()
                && final(self).containers_view() == old(self).containers_view(),
    {
        let ghost po = self.player_open@;
        let mut map = match self.player_open.remove(&player) {
            Some(m) => m,
            None => {
                assert(self.player_open@ =~= po);
                return false;
            },
        };
        let ghost m0 = map@;
        let oc = match map.remove(&cid) {
            Some(oc) => oc,
            None => {
                assert(map@ =~= m0);
                self.player_open.insert(player, map);
                assert(ov(self.player_open@) =~= ov(po));
                return false;
            },
        };
        if !map.is_empty() {
            self.player_open.insert(player, map);
            assert(ov(self.player_open@) =~= ov(po).insert(player, m0.remove(cid)));
        } else {
            assert(ov(self.player_open@) =~= ov(po).remove(player));
        }
        remove_viewer_from(&mut self.containers, oc.container_id, player);
        true
    }

    /// Same as [`Self::close_container_for_player`].
    pub fn release_cid(&mut self, player: CreatureId, cid: u8) -> (r: bool)
        requires
            old(self).wf(),
        ensures
            final(self).wf(),
            r == (old(self).open_view().contains_key(player) && old(self).open_view()[player].contains_key(cid)),
            r ==> final(self).open_view() == spec_after_close(old(self).open_view(), player, cid)
                && viewers_removed(old(self).containers_view(), final(self).containers_view(),
                    old(self).open_view()[player][cid].container_id, player),
            !r ==> final(self).open_view() == old(self).open_view()
                && final(self).containers_view() == old(self).containers_view(),
    {
        self.close_container_for_player(player, cid)
    }

    /// Sets the scroll offset of an open window.
    pub fn set_container_index(&mut self, player: CreatureId, cid: u8, first_index: u16) -> (r: bool)
        requires
            old(self).wf(),
        ensures
            final(self).wf(),
            final(self).containers_view() == old(self).containers_view(),
            r == (old(self).open_view().contains_key(player) && old(self).open_view()[player].contains_key(cid)),
            r ==> final(self).open_view() == old(self).open_view().insert(player,
                old(self).open_view()[player].insert(cid, OpenContainer {
                    container_id: old(self).open_view()[player][cid].container_id, first_index })),
            !r ==> final(self).open_view() == old(self).open_view(),
    {
        let ghost po = self.player_open@;
        let mut map = match self.player_open.remove(&player) {
            Some(m) => m,
            None => {
                assert(self.player_open@ =~= po);
                return false;
            },
        };
        let ghost m0 = map@;
        let container_id = match map.get(&cid) {
            Some(oc) => oc.container_id,
            None => {
                self.player_open.insert(player, map);
                assert(ov(self.player_open@) =~= ov(po));
                return false;
            },
        };
        map.insert(cid, OpenContainer { container_id, first_index });
        self.player_open.insert(player, map);
        assert(ov(self.player_open@) =~= ov(po).insert(player, m0.insert(cid, OpenContainer { container_id, first_index })));
        true
    }

    /// The container shown in window `cid`.
    pub fn get_container_by_cid(&self, player: CreatureId, cid: u8) -> (r: Option<ItemId>)
        ensures
            r == (if self.windows(player).contains_key(cid) { Some(self.windows(player)[cid].container_id) } else { None::<ItemId> }),
    {
        match self.player_open.get(&player) {
            Some(m) => match m.get(&cid) {
                Some(oc) => Some(oc.container_id),
                None => None,
            },
            None => None,
        }
    }

    /// The scroll offset of window `cid`.
    pub fn get_container_first_index(&self, player: CreatureId, cid: u8) -> (r: Option<u16>)
        ensures
            r == (if self.windows(player).contains_key(cid) { Some(self.windows(player)[cid].first_index) } else { None::<u16> }),
    {
        match self.player_open.get(&player) {
            Some(m) => match m.get(&cid) {
                Some(oc) => Some(oc.first_index),
                None => None,
            },
            None => None,
        }
    }

    /// A window of `player` showing `container_id` (the lowest cid).
    pub fn get_cid_for_container(&self, player: CreatureId, container_id: ItemId) -> (r: Option<u8>)
        requires
            self.wf(),
        ensures
            match r {
                Some(c) => self.windows(player).contains_key(c) && self.windows(player)[c].container_id == container_id
                    && forall|d: u8| d < c && #[trigger] self.windows(player).contains_key(d) ==> self.windows(player)[d].container_id != container_id,
                None => forall|d: u8| #[trigger] self.windows(player).contains_key(d) ==> self.windows(player)[d].container_id != container_id,
            },
    {
        match self.player_open.get(&player) {
            None => None,
            Some(m) => {
                let mut c: u8 = 0;
                while c < MAX_CONTAINER_WINDOWS
                    invariant
                        c <= 16,
                        m@ == self.windows(player),
                        forall|d: u8| #[trigger] m@.contains_key(d) ==> d < 16,
                        forall|d: u8| d < c && #[trigger] m@.contains_key(d) ==> m@[d].container_id != container_id,
                    decreases 16 - c,
                {
                    match m.get(&c) {
                        Some(oc) => {
                            if oc.container_id == container_id {
                                return Some(c);
                            }
                        },
                        None => {},
                    }
                    c = c + 1;
                }
                None
            },
        }
    }

    /// The containers shown in the player's windows, by cid.
    pub fn open_container_roots(&self, player: CreatureId) -> (v: Vec<ItemId>)
        ensures
            v@ == entry_ids(spec_entries(self.windows(player), 16)),
    {
        let entries = self.open_container_entries(player);
        let mut v: Vec<ItemId> = Vec::new();
        let mut i: usize = 0;
        while i < entries.len()
            invariant
                0 <= i <= entries@.len(),
                v@ == entry_ids(entries@.take(i as int)),
            decreases entries@.len() - i,
        {
            v.push(entries[i].1);
            i = i + 1;
            assert(v@ =~= entry_ids(entries@.take(i as int)));
        }
        assert(entries@.take(entries@.len() as int) =~= entries@);
        v
    }

    /// Closes every window of `player` (e.g. on logout); returns `(cid, container)` per closed window, by cid.
    pub fn close_all_for_player(&mut self, player: CreatureId) -> (v: Vec<(u8, ItemId)>)
        requires
            old(self).wf(),
        ensures
            final(self).wf(),
            v@ == spec_entries(old(self).windows(player), 16),
            final(self).open_view() == old(self).open_view().remove(player),
            viewers_removed_from(old(self).containers_view(), final(self).containers_view(),
                entry_ids(spec_entries(old(self).windows(player), 16)), player),
    {
        let ghost po = self.player_open@;
        let ghost oldc = self.containers@;
        let entries = self.open_container_entries(player);
        let map = match self.player_open.remove(&player) {
            Some(m) => m,
            None => {
                assert(self.player_open@ =~= po);
                proof { lemma_entries_empty(16); }
                assert(self.containers@ == oldc);
                return entries;
            },
        };
        assert(ov(self.player_open@) =~= ov(po).remove(player));
        let ghost po2 = self.player_open@;
        let mut i: usize = 0;
        while i < entries.len()
            invariant
                0 <= i <= entries@.len(),
                self.player_open@ == po2,
                self.wf(),
                viewers_removed_from(oldc, self.containers@, entry_ids(entries@.take(i as int)), player),
            decreases entries@.len() - i,
        {
            let ghost before = self.containers@;
            remove_viewer_from(&mut self.containers, entries[i].1, player);
            proof {
                let s0 = entry_ids(entries@.take(i as int));
                let s1 = entry_ids(entries@.take(i as int + 1));
                assert(s1 =~= s0.push(entries@[i as int].1));
                assert forall|k: ItemId| s1.contains(k) <==> (s0.contains(k) || k == entries@[i as int].1) by {
                    if s1.contains(k) && k != entries@[i as int].1 {
                        let j = choose|j: int| 0 <= j < s1.len() && s1[j] == k;
                        assert(s0[j] == k);
                    }
                    if s0.contains(k) {
                        let j = choose|j: int| 0 <= j < s0.len() && s0[j] == k;
                        assert(s1[j] == k);
                    }
                    if k == entries@[i as int].1 {
                        assert(s1[s1.len() - 1] == k);
                    }
                }
                assert forall|k: ItemId| #[trigger] oldc.contains_key(k) && s1.contains(k) implies self.containers@[k].same_but_viewers(oldc[k])
                    && self.containers@[k].open_by@ == remove_all(oldc[k].open_by@, player) by {
                    if s0.contains(k) {
                        lemma_remove_all_idem(oldc[k].open_by@, player);
                    }
                }
            }
            i = i + 1;
        }
        assert(entries@.take(entries@.len() as int) =~= entries@);
        entries
    }
}


/// How opening `container_id` in window `c` of `p` changes the containers' viewers:
/// replacing another container moves the viewer; a new window adds it.
pub open spec fn window_viewers_updated(old: ContainerMap, new: ContainerMap, w: Map<u8, OpenContainer>, c: u8, container_id: ItemId, p: CreatureId) -> bool {
    if w.contains_key(c) {
        if w[c].container_id != container_id {
            exists|mid: ContainerMap| viewers_removed(old, mid, w[c].container_id, p) && viewer_added(mid, new, container_id, p)
        } else {
            new == old
        }
    } else {
        viewer_added(old, new, container_id, p)
    }
}

impl ContainerRegistry {
    /// Opens `container_id` for `player` in the preferred
    /// window (when below 16) or the lowest free one, replacing what that window showed;
    /// returns the window's cid, or `None` when all 16 windows are in use. The player
    /// gets an (possibly empty) window map either way.
    pub fn add_container(&mut self, player: CreatureId, container_id: ItemId, preferred_cid: Option<u8>, first_index: u16) -> (r: Option<u8>)
        requires
            old(self).wf(),
        ensures
            final(self).wf(),
            r == spec_choose_cid(old(self).windows(player), preferred_cid),
            match r {
                None => final(self).open_view() == old(self).open_view().insert(player, old(self).windows(player))
                    && final(self).containers_view() == old(self).containers_view(),
                Some(c) => final(self).open_view() == old(self).open_view().insert(player,
                        old(self).windows(player).insert(c, OpenContainer { container_id, first_index }))
                    && window_viewers_updated(old(self).containers_view(), final(self).containers_view(),
                        old(self).windows(player), c, container_id, player),
            },
    {
        let ghost po = self.player_open@;
        let mut map = match self.player_open.remove(&player) {
            Some(m) => m,
            None => HashMap::new(),
        };
        let ghost w = map@;
        assert(w == old(self).windows(player));
        let chosen = match preferred_cid {
            Some(pc) => if pc < MAX_CONTAINER_WINDOWS { Some(pc) } else { Self::first_free_cid(&map) },
            None => Self::first_free_cid(&map),
        };
        let cid = match chosen {
            Some(c) => c,
            None => {
                self.player_open.insert(player, map);
                assert(ov(self.player_open@) =~= ov(po).insert(player, w));
                return None;
            },
        };
        let existing = match map.get(&cid) {
            Some(oc) => Some(oc.container_id),
            None => None,
        };
        map.insert(cid, OpenContainer { container_id, first_index });
        self.player_open.insert(player, map);
        assert(ov(self.player_open@) =~= ov(po).insert(player, w.insert(cid, OpenContainer { container_id, first_index })));
        match existing {
            Some(old_id) => {
                if old_id != container_id {
                    remove_viewer_from(&mut self.containers, old_id, player);
                    let ghost mid = self.containers@;
                    add_viewer_to(&mut self.containers, container_id, player);
                    assert(viewers_removed(old(self).containers_view(), mid, old_id, player));
                }
            },
            None => {
                add_viewer_to(&mut self.containers, container_id, player);
            },
        }
        Some(cid)
    }

    /// Opens `container_id` for `player` in the lowest free window, scroll 0.
    pub fn assign_cid(&mut self, player: CreatureId, container_id: ItemId) -> (r: Option<u8>)
        requires
            old(self).wf(),
        ensures
            final(self).wf(),
            r == spec_first_free(old(self).windows(player), 0),
            match r {
                None => final(self).open_view() == old(self).open_view().insert(player, old(self).windows(player))
                    && final(self).containers_view() == old(self).containers_view(),
                Some(c) => final(self).open_view() == old(self).open_view().insert(player,
                        old(self).windows(player).insert(c, OpenContainer { container_id, first_index: 0 }))
                    && window_viewers_updated(old(self).containers_view(), final(self).containers_view(),
                        old(self).windows(player), c, container_id, player),
            },
    {
        self.add_container(player, container_id, None, 0)
    }
}

/// Players with a window showing container `id`.
pub open spec fn closers(o: Map<CreatureId, Map<u8, OpenContainer>>, id: ItemId) -> Set<CreatureId> {
    Set::new(|p: CreatureId| exists|c: u8| shows(o, p, c, id))
}

/// Windows after removing container `id`, for the players in `done`: their windows
/// showing `id` are closed, and a player whose last window was closed loses the entry.
pub open spec fn spec_after_remove_for(o: Map<CreatureId, Map<u8, OpenContainer>>, id: ItemId, done: Set<CreatureId>) -> Map<CreatureId, Map<u8, OpenContainer>> {
    Map::new(
        |p: CreatureId| o.contains_key(p) && (done.contains(p) ==> !(keep_windows(o[p], id).is_empty() && closers(o, id).contains(p))),
        |p: CreatureId| if done.contains(p) { keep_windows(o[p], id) } else { o[p] },
    )
}

proof fn lemma_closing_cids(m: Map<u8, OpenContainer>, id: ItemId, n: nat)
    requires
        n <= 16,
    ensures
        forall|c: u8| #[trigger] closing_cids(m, id, n).contains(c) <==> (c < n && m.contains_key(c) && m[c].container_id == id),
        closing_cids(m, id, n).no_duplicates(),
        forall|i: int| 0 <= i < closing_cids(m, id, n).len() ==> #[trigger] closing_cids(m, id, n)[i] < n,
    decreases n,
{
    if n > 0 {
        lemma_closing_cids(m, id, (n - 1) as nat);
        let rest = closing_cids(m, id, (n - 1) as nat);
        let c = (n - 1) as u8;
        if m.contains_key(c) && m[c].container_id == id {
            let s = rest.push(c);
            assert forall|d: u8| #[trigger] s.contains(d) <==> (d < n && m.contains_key(d) && m[d].container_id == id) by {
                if s.contains(d) && d != c {
                    let j = choose|j: int| 0 <= j < s.len() && s[j] == d;
                    assert(rest[j] == d);
                    assert(rest.contains(d));
                }
                if d < n - 1 && m.contains_key(d) && m[d].container_id == id {
                    assert(rest.contains(d));
                    let j = choose|j: int| 0 <= j < rest.len() && rest[j] == d;
                    assert(s[j] == d);
                }
                if d == c {
                    assert(s[s.len() - 1] == d);
                }
            }
        }
    }
}

impl ContainerRegistry {
    /// Every player that has a window map, each once.
    fn player_ids(&self) -> (v: Vec<CreatureId>)
        ensures
            v@.to_set() == self.player_open@.dom(),
            v@.no_duplicates(),
    {
        let mut v: Vec<CreatureId> = Vec::new();
        let ghost ks = vstd::std_specs::hash::spec_keys_iter(&self.player_open).remaining();
        proof {
            vstd::std_specs::hash::axiom_spec_keys_iter(&self.player_open);
        }
        for k in it: self.player_open.keys()
            invariant
                it.seq() == ks,
                v@.len() == it.index(),
                forall|i: int| 0 <= i < v@.len() ==> v@[i] == *ks[i],
        {
            v.push(*k);
        }
        proof {
            assert(v@ =~= ks.unref());
        }
        v
    }

    /// Closes, in `map`, every window showing `id`; returns the closed cids ascending.
    fn drop_windows_showing(map: &mut HashMap<u8, OpenContainer>, id: ItemId) -> (r: Vec<u8>)
        requires
            forall|d: u8| #[trigger] old(map)@.contains_key(d) ==> d < 16,
        ensures
            final(map)@ == keep_windows(old(map)@, id),
            r@ == closing_cids(old(map)@, id, 16),
    {
        let ghost m0 = map@;
        let mut out: Vec<u8> = Vec::new();
        let mut c: u8 = 0;
        while c < MAX_CONTAINER_WINDOWS
            invariant
                c <= 16,
                forall|d: u8| #[trigger] m0.contains_key(d) ==> d < 16,
                out@ == closing_cids(m0, id, c as nat),
                map@ == Map::new(|d: u8| m0.contains_key(d) && (d < c ==> m0[d].container_id != id), |d: u8| m0[d]),
            decreases 16 - c,
        {
            let hit = match map.get(&c) {
                Some(oc) => oc.container_id == id,
                None => false,
            };
            if hit {
                map.remove(&c);
                out.push(c);
            }
            c = c + 1;
            assert(map@ =~= Map::new(|d: u8| m0.contains_key(d) && (d < c ==> m0[d].container_id != id), |d: u8| m0[d]));
        }
        assert(map@ =~= keep_windows(m0, id));
        out
    }

    /// Unregisters container `item_id` and closes every window showing it; returns the
    /// container (without the viewers whose windows closed) and the closed `(player, cid)` windows.
    pub fn remove(&mut self, item_id: ItemId) -> (r: (Option<Container>, Vec<(CreatureId, u8)>))
        requires
            old(self).wf(),
        ensures
            final(self).wf(),
            final(self).containers_view() == old(self).containers_view().remove(item_id),
            final(self).open_view() == spec_after_remove_for(old(self).open_view(), item_id, old(self).open_view().dom()),
            r.0 is Some <==> old(self).containers_view().contains_key(item_id),
            r.0 matches Some(c) ==> c.same_but_viewers(old(self).containers_view()[item_id])
                && c.open_by@ == without(old(self).containers_view()[item_id].open_by@, closers(old(self).open_view(), item_id)),
            r.1@.no_duplicates(),
            forall|p: CreatureId, c: u8| #[trigger] r.1@.contains((p, c)) <==> shows(old(self).open_view(), p, c, item_id),
    {
        let ghost o = self.open_view();
        let ghost po = self.player_open@;
        let ghost oldc = self.containers@;
        let players = self.player_ids();
        let mut closed: Vec<(CreatureId, u8)> = Vec::new();
        let mut i: usize = 0;
        proof {
            lemma_without_empty(if oldc.contains_key(item_id) { oldc[item_id].open_by@ } else { Seq::empty() });
            assert(spec_after_remove_for(o, item_id, Set::empty()) =~= o);
            assert(players@.take(0) =~= Seq::<CreatureId>::empty());
            assert(players@.take(0).to_set() =~= Set::<CreatureId>::empty());
            assert(closers(o, item_id).intersect(Set::empty()) =~= Set::empty());
        }
        while i < players.len()
            invariant
                0 <= i <= players@.len(),
                players@.to_set() == po.dom(),
                players@.no_duplicates(),
                o == ov(po),
                forall|p: CreatureId, c: u8| #[trigger] po.contains_key(p) && #[trigger] po[p]@.contains_key(c) ==> c < 16,
                self.wf(),
                forall|j: int| i <= j < players@.len() ==> self.player_open@.contains_key(#[trigger] players@[j])
                    && self.player_open@[players@[j]] == po[players@[j]],
                ov(self.player_open@) == spec_after_remove_for(o, item_id, players@.take(i as int).to_set()),
                self.containers@.dom() == oldc.dom(),
                forall|k: ItemId| #[trigger] oldc.contains_key(k) && k != item_id ==> self.containers@[k] == oldc[k],
                oldc.contains_key(item_id) ==> self.containers@[item_id].same_but_viewers(oldc[item_id])
                    && self.containers@[item_id].open_by@ == without(oldc[item_id].open_by@,
                        closers(o, item_id).intersect(players@.take(i as int).to_set())),
                closed@.no_duplicates(),
                forall|p: CreatureId, c: u8| #[trigger] closed@.contains((p, c)) <==>
                    (players@.take(i as int).to_set().contains(p) && shows(o, p, c, item_id)),
            decreases players@.len() - i,
        {
            let pid = players[i];
            let ghost done0 = players@.take(i as int).to_set();
            let ghost done1 = players@.take(i as int + 1).to_set();
            proof {
                let t0 = players@.take(i as int);
                let t1 = players@.take(i as int + 1);
                assert(t1 =~= t0.push(pid));
                assert(done1 =~= done0.insert(pid)) by {
                    assert forall|x: CreatureId| done1.contains(x) <==> done0.contains(x) || x == pid by {
                        if done1.contains(x) {
                            let j = choose|j: int| 0 <= j < t1.len() && #[trigger] t1[j] == x;
                            if j < i { assert(t0[j] == x); }
                        }
                        if done0.contains(x) {
                            let j = choose|j: int| 0 <= j < t0.len() && #[trigger] t0[j] == x;
                            assert(t1[j] == x);
                        }
                        if x == pid {
                            assert(t1[i as int] == x);
                        }
                    }
                }
                assert(!done0.contains(pid)) by {
                    if done0.contains(pid) {
                        let j = choose|j: int| 0 <= j < t0.len() && #[trigger] t0[j] == pid;
                        assert(players@[j] == players@[i as int]);
                    }
                }
                assert(po.contains_key(pid)) by {
                    assert(players@.to_set().contains(pid));
                }
            }
            let ghost before_po = self.player_open@;
            let ghost before_c = self.containers@;
            let ghost closed0 = closed@;
            let mut map = match self.player_open.remove(&pid) {
                Some(m) => m,
                None => {
                    proof { assert(false); }
                    HashMap::new()
                },
            };
            let ghost m0 = map@;
            assert(m0 == o[pid]);
            let cids = Self::drop_windows_showing(&mut map, item_id);
            proof {
                lemma_closing_cids(m0, item_id, 16);
            }
            let any_closed = cids.len() > 0;
            proof {
                if any_closed {
                    let c = cids@[0];
                    assert(cids@.contains(c));
                    assert(shows(o, pid, c, item_id));
                    assert(closers(o, item_id).contains(pid));
                } else {
                    assert forall|c: u8| !shows(o, pid, c, item_id) by {
                        if shows(o, pid, c, item_id) {
                            assert(c < 16);
                            assert(cids@.contains(c));
                        }
                    }
                    assert(!closers(o, item_id).contains(pid));
                }
            }
            if any_closed {
                remove_viewer_from(&mut self.containers, item_id, pid);
                if !map.is_empty() {
                    self.player_open.insert(pid, map);
                }
            } else {
                self.player_open.insert(pid, map);
            }
            let mut j: usize = 0;
            while j < cids.len()
                invariant
                    0 <= j <= cids@.len(),
                    closed@.len() == closed0.len() + j,
                    forall|k: int| 0 <= k < closed0.len() ==> closed@[k] == closed0[k],
                    forall|k: int| 0 <= k < j ==> closed@[closed0.len() + k] == (pid, cids@[k]),
                decreases cids@.len() - j,
            {
                closed.push((pid, cids[j]));
                j = j + 1;
            }
            proof {
                let s0 = spec_after_remove_for(o, item_id, done0);
                let s1 = spec_after_remove_for(o, item_id, done1);
                let nv = ov(self.player_open@);
                assert(map@ == keep_windows(m0, item_id));
                assert forall|p: CreatureId| #[trigger] nv.contains_key(p) == s1.contains_key(p) by {
                    if p == pid {
                        if !any_closed {
                            assert(!closers(o, item_id).contains(pid));
                        }
                    } else {
                        assert(done1.contains(p) == done0.contains(p));
                        assert(ov(before_po).contains_key(p) == s0.contains_key(p));
                        assert(self.player_open@.contains_key(p) == before_po.contains_key(p));
                    }
                }
                assert forall|p: CreatureId| nv.contains_key(p) implies #[trigger] nv[p] == s1[p] by {
                    if p == pid {
                        assert(nv[p] == map@);
                        if !any_closed {
                            assert forall|c: u8| #[trigger] m0.contains_key(c) implies m0[c].container_id != item_id by {
                                assert(!shows(o, pid, c, item_id));
                            }
                            assert(keep_windows(m0, item_id) =~= m0);
                        }
                    } else {
                        assert(done1.contains(p) == done0.contains(p));
                        assert(ov(before_po).contains_key(p) == s0.contains_key(p));
                        assert(self.player_open@[p] == before_po[p]);
                        assert(ov(before_po)[p] == s0[p]);
                    }
                }
                assert(nv =~= s1);
                let cl = closers(o, item_id);
                if any_closed {
                    assert(cl.intersect(done1) =~= cl.intersect(done0).insert(pid));
                    if oldc.contains_key(item_id) {
                        lemma_without_insert(oldc[item_id].open_by@, cl.intersect(done0), pid);
                    }
                } else {
                    assert(cl.intersect(done1) =~= cl.intersect(done0));
                }
                assert forall|p: CreatureId, c: u8| #[trigger] closed@.contains((p, c)) <==> (done1.contains(p) && shows(o, p, c, item_id)) by {
                    if closed@.contains((p, c)) {
                        let k = choose|k: int| 0 <= k < closed@.len() && #[trigger] closed@[k] == (p, c);
                        if k < closed0.len() {
                            assert(closed0[k] == (p, c));
                            assert(closed0.contains((p, c)));
                        } else {
                            let kk = k - closed0.len();
                            assert(closed@[closed0.len() + kk] == (pid, cids@[kk]));
                            assert(cids@[kk] == c);
                            assert(cids@.contains(c));
                            assert(p == pid);
                        }
                    }
                    if done1.contains(p) && shows(o, p, c, item_id) {
                        if p == pid {
                            assert(c < 16);
                            assert(cids@.contains(c));
                            let k = choose|k: int| 0 <= k < cids@.len() && #[trigger] cids@[k] == c;
                            assert(closed@[closed0.len() + k] == (p, c));
                        } else {
                            assert(closed0.contains((p, c)));
                            let k = choose|k: int| 0 <= k < closed0.len() && #[trigger] closed0[k] == (p, c);
                            assert(closed@[k] == (p, c));
                        }
                    }
                }
                assert forall|a: int, b: int| 0 <= a < closed@.len() && 0 <= b < closed@.len() && a != b implies closed@[a] != closed@[b] by {
                    if a < closed0.len() && b < closed0.len() {
                        assert(closed@[a] == closed0[a] && closed@[b] == closed0[b]);
                    } else if a >= closed0.len() && b >= closed0.len() {
                        assert(closed@[closed0.len() + (a - closed0.len())] == (pid, cids@[a - closed0.len()]));
                        assert(closed@[closed0.len() + (b - closed0.len())] == (pid, cids@[b - closed0.len()]));
                        assert(cids@[a - closed0.len()] != cids@[b - closed0.len()]);
                    } else if a < closed0.len() {
                        assert(closed@[a] == closed0[a]);
                        assert(closed0.contains((closed0[a].0, closed0[a].1)));
                        assert(done0.contains(closed@[a].0));
                        assert(closed@[closed0.len() + (b - closed0.len())] == (pid, cids@[b - closed0.len()]));
                        assert(closed@[b].0 == pid);
                    } else {
                        assert(closed@[b] == closed0[b]);
                        assert(closed0.contains((closed0[b].0, closed0[b].1)));
                        assert(done0.contains(closed@[b].0));
                        assert(closed@[closed0.len() + (a - closed0.len())] == (pid, cids@[a - closed0.len()]));
                        assert(closed@[a].0 == pid);
                    }
                }
                assert forall|jj: int| i + 1 <= jj < players@.len() implies self.player_open@.contains_key(#[trigger] players@[jj])
                    && self.player_open@[players@[jj]] == po[players@[jj]] by {
                    assert(players@[jj] != pid);
                }
            }
            i = i + 1;
        }
        proof {
            assert(players@.take(players@.len() as int) =~= players@);
            assert(closers(o, item_id).intersect(po.dom()) =~= closers(o, item_id)) by {
                assert forall|p: CreatureId| closers(o, item_id).contains(p) implies po.dom().contains(p) by {
                    let c = choose|c: u8| shows(o, p, c, item_id);
                }
            }
            assert(o.dom() == po.dom());
        }
        let c = self.containers.remove(&item_id);
        assert(self.containers@ =~= oldc.remove(item_id));
        (c, closed)
    }
}

/// Item count of container `c` (0 when unregistered).
pub open spec fn clen(m: ContainerMap, c: ItemId) -> int {
    if m.contains_key(c) { m[c].items@.len() as int } else { 0 }
}

/// Drops exhausted containers from the front of the queue, restarting at slot 0.
pub open spec fn spec_settle(m: ContainerMap, over: Seq<ItemId>, index: int) -> (Seq<ItemId>, int)
    decreases over.len(),
{
    if over.len() == 0 {
        (over, index)
    } else if index < clen(m, over[0]) {
        (over, index)
    } else {
        spec_settle(m, over.drop_first(), 0)
    }
}

/// One iterator step: queue the current item when it is a non-empty container, move
/// to the next slot, then drop exhausted containers. No step when there is no current item.
pub open spec fn spec_advance(m: ContainerMap, over: Seq<ItemId>, index: int) -> (Seq<ItemId>, int) {
    if over.len() == 0 || !(m.contains_key(over[0]) && 0 <= index < m[over[0]].items@.len()) {
        (over, index)
    } else {
        let cur = m[over[0]].items@[index];
        let over1 = if m.contains_key(cur) && m[cur].items@.len() > 0 { over.push(cur) } else { over };
        spec_settle(m, over1, index + 1)
    }
}

/// The current item of the iterator, when there is one.
pub open spec fn spec_peek(m: ContainerMap, over: Seq<ItemId>, index: int) -> Option<ItemId> {
    if over.len() > 0 && m.contains_key(over[0]) && 0 <= index < m[over[0]].items@.len() {
        Some(m[over[0]].items@[index])
    } else {
        None
    }
}

/// Recursive item iterator over a container and the containers it holds, breadth
/// first: the root's items in order, then the items of each queued sub-container.
pub struct ContainerIterator<'a> {
    registry: &'a ContainerRegistry,
    over: Vec<ItemId>,
    index: usize,
}

impl<'a> ContainerIterator<'a> {
    /// The containers the iterator walks.
    pub closed spec fn walked(self) -> ContainerMap {
        self.registry.containers_view()
    }

    /// Queue of containers still to walk (front = current).
    pub closed spec fn queue(self) -> Seq<ItemId> {
        self.over@
    }

    /// Slot within the front container.
    pub closed spec fn slot(self) -> int {
        self.index as int
    }

    /// Iteration over the items held in `root_container_item_id` (not the container itself).
    pub fn new(registry: &'a ContainerRegistry, root_container_item_id: ItemId) -> (it: ContainerIterator<'a>)
        ensures
            it.walked() == registry.containers_view(),
            it.queue() == start_queue(registry.containers_view(), root_container_item_id),
            it.slot() == 0,
    {
        let mut over: Vec<ItemId> = Vec::new();
        match registry.get(root_container_item_id) {
            Some(c) => {
                if c.items.len() > 0 {
                    over.push(root_container_item_id);
                }
            },
            None => {},
        }
        proof {
            assert(over@ =~= (if clen(registry.containers_view(), root_container_item_id) > 0 {
                seq![root_container_item_id] } else { Seq::<ItemId>::empty() }));
        }
        ContainerIterator { registry, over, index: 0 }
    }

    pub fn has_next(&self) -> (r: bool)
        ensures
            r == (self.queue().len() > 0),
    {
        self.over.len() > 0
    }

    fn peek(&self) -> (r: Option<ItemId>)
        ensures
            r == spec_peek(self.walked(), self.queue(), self.slot()),
    {
        if self.over.len() == 0 {
            return None;
        }
        match self.registry.get(self.over[0]) {
            Some(c) => {
                if self.index < c.items.len() {
                    Some(c.items[self.index])
                } else {
                    None
                }
            },
            None => None,
        }
    }

    /// Moves to the next item.
    pub fn advance(&mut self)
        ensures
            final(self).walked() == old(self).walked(),
            (final(self).queue(), final(self).slot()) == spec_advance(old(self).walked(), old(self).queue(), old(self).slot()),
    {
        let ghost m = self.walked();
        if self.over.len() == 0 {
            return;
        }
        let front = self.over[0];
        let cur = match self.registry.get(front) {
            Some(c) => {
                if self.index < c.items.len() {
                    c.items[self.index]
                } else {
                    return;
                }
            },
            None => {
                return;
            },
        };
        match self.registry.get(cur) {
            Some(cc) => {
                if cc.items.len() > 0 {
                    self.over.push(cur);
                }
            },
            None => {},
        }
        self.index = self.index + 1;
        let ghost target = spec_advance(m, old(self).queue(), old(self).slot());
        while self.over.len() > 0
            invariant
                self.walked() == m,
                spec_settle(m, self.over@, self.index as int) == target,
            ensures
                (self.over@, self.index as int) == target,
            decreases self.over@.len(),
        {
            let fc = self.over[0];
            let clen_now = match self.registry.get(fc) {
                Some(c) => c.items.len(),
                None => 0,
            };
            if self.index < clen_now {
                break;
            }
            let ghost prev = self.over@;
            self.over.remove(0);
            self.index = 0;
            assert(self.over@ =~= prev.drop_first());
        }
    }

    /// The current item, then a step; `None` when the walk is over.
    pub fn next_item(&mut self) -> (r: Option<ItemId>)
        ensures
            final(self).walked() == old(self).walked(),
            r == spec_peek(old(self).walked(), old(self).queue(), old(self).slot()),
            r is Some ==> (final(self).queue(), final(self).slot()) == spec_advance(old(self).walked(), old(self).queue(), old(self).slot()),
            r is None ==> final(self).queue() == old(self).queue() && final(self).slot() == old(self).slot(),
    {
        if !self.has_next() {
            return None;
        }
        let id = match self.peek() {
            Some(id) => id,
            None => {
                return None;
            },
        };
        self.advance();
        Some(id)
    }
}

/// The queue a fresh iterator over `root` starts with: the root when it is a registered
/// container holding items, else nothing.
pub open spec fn start_queue(m: ContainerMap, root: ItemId) -> Seq<ItemId> {
    if clen(m, root) > 0 { seq![root] } else { Seq::<ItemId>::empty() }
}

/// The registered containers holding items among `s`, in order.
pub open spec fn subcontainers(m: ContainerMap, s: Seq<ItemId>) -> Seq<ItemId>
    decreases s.len(),
{
    if s.len() == 0 {
        Seq::<ItemId>::empty()
    } else {
        (if clen(m, s[0]) > 0 { seq![s[0]] } else { Seq::<ItemId>::empty() }) + subcontainers(m, s.drop_first())
    }
}

/// Breadth-first listing by containers: all items of the front container of `q`, then
/// the listing of the rest of `q` with the front's non-empty sub-containers queued
/// behind it; at most `fuel` containers are listed.
pub open spec fn bfs_items(m: ContainerMap, q: Seq<ItemId>, fuel: nat) -> Seq<ItemId>
    decreases fuel,
{
    if fuel == 0 || q.len() == 0 {
        Seq::<ItemId>::empty()
    } else {
        m[q[0]].items@ + bfs_items(m, q.drop_first() + subcontainers(m, m[q[0]].items@), (fuel - 1) as nat)
    }
}

/// The breadth-first listing of `q` empties the queue within `fuel` containers.
pub open spec fn bfs_done(m: ContainerMap, q: Seq<ItemId>, fuel: nat) -> bool
    decreases fuel,
{
    if q.len() == 0 {
        true
    } else if fuel == 0 {
        false
    } else {
        bfs_done(m, q.drop_first() + subcontainers(m, m[q[0]].items@), (fuel - 1) as nat)
    }
}

/// The items that `n` calls of `next_item` hand out from the state `(q, i)`, up to the
/// first `None`.
pub open spec fn drained(m: ContainerMap, q: Seq<ItemId>, i: int, n: nat) -> Seq<ItemId>
    decreases n,
{
    if n == 0 {
        Seq::<ItemId>::empty()
    } else {
        match spec_peek(m, q, i) {
            Some(x) => seq![x] + drained(m, spec_advance(m, q, i).0, spec_advance(m, q, i).1, (n - 1) as nat),
            None => Seq::<ItemId>::empty(),
        }
    }
}

/// Every container of `q` is registered and holds items (true of every queue a walk
/// reaches).
pub open spec fn live_queue(m: ContainerMap, q: Seq<ItemId>) -> bool {
    forall|k: int| 0 <= k < q.len() ==> clen(m, #[trigger] q[k]) > 0
}

proof fn lemma_subcontainers_live(m: ContainerMap, s: Seq<ItemId>)
    ensures
        live_queue(m, subcontainers(m, s)),
    decreases s.len(),
{
    if s.len() > 0 {
        lemma_subcontainers_live(m, s.drop_first());
        let h = if clen(m, s[0]) > 0 { seq![s[0]] } else { Seq::<ItemId>::empty() };
        let t = subcontainers(m, s.drop_first());
        assert forall|k: int| 0 <= k < (h + t).len() implies clen(m, #[trigger] (h + t)[k]) > 0 by {
            if k >= h.len() {
                assert((h + t)[k] == t[k - h.len()]);
            }
        }
    }
}

/// Walking the front container of a live queue from slot `i` to its end hands out its
/// remaining items in order and leaves the rest of the queue with the non-empty
/// sub-containers among those items queued behind, at slot 0.
proof fn lemma_drain_front(m: ContainerMap, q: Seq<ItemId>, i: int, n: nat)
    requires
        live_queue(m, q),
        q.len() > 0,
        0 <= i < clen(m, q[0]),
    ensures
        drained(m, q, i, (clen(m, q[0]) - i + n) as nat)
            == m[q[0]].items@.subrange(i, clen(m, q[0]))
                + drained(m, q.drop_first() + subcontainers(m, m[q[0]].items@.subrange(i, clen(m, q[0]))), 0, n),
    decreases clen(m, q[0]) - i,
{
    let items = m[q[0]].items@;
    let len = clen(m, q[0]);
    let cur = items[i];
    assert(spec_peek(m, q, i) == Some(cur));
    let over1 = if m.contains_key(cur) && m[cur].items@.len() > 0 { q.push(cur) } else { q };
    assert(clen(m, cur) > 0 <==> (m.contains_key(cur) && m[cur].items@.len() > 0));
    let head = if clen(m, cur) > 0 { seq![cur] } else { Seq::<ItemId>::empty() };
    assert(items.subrange(i, len).drop_first() =~= items.subrange(i + 1, len));
    assert(items.subrange(i, len)[0] == cur);
    assert(subcontainers(m, items.subrange(i, len)) == head + subcontainers(m, items.subrange(i + 1, len)));
    assert(live_queue(m, over1)) by {
        assert forall|k: int| 0 <= k < over1.len() implies clen(m, #[trigger] over1[k]) > 0 by {
            if k < q.len() {
                assert(over1[k] == q[k]);
            }
        }
    }
    assert(over1[0] == q[0]);
    assert(over1.drop_first() =~= q.drop_first() + head);
    let k = (len - i + n - 1) as nat;
    if i + 1 < len {
        assert(spec_advance(m, q, i) == (over1, i + 1));
        lemma_drain_front(m, over1, i + 1, n);
        assert(drained(m, q, i, (len - i + n) as nat) == seq![cur] + drained(m, over1, i + 1, k));
        assert(over1.drop_first() + subcontainers(m, items.subrange(i + 1, len))
            =~= q.drop_first() + subcontainers(m, items.subrange(i, len)));
        assert(seq![cur] + items.subrange(i + 1, len) =~= items.subrange(i, len));
    } else {
        let rest = over1.drop_first();
        if rest.len() > 0 {
            assert(rest[0] == over1[1]);
            assert(clen(m, rest[0]) > 0);
        }
        assert(spec_settle(m, rest, 0) == (rest, 0int));
        assert(spec_settle(m, over1, i + 1) == spec_settle(m, rest, 0));
        assert(spec_advance(m, q, i) == (rest, 0int));
        assert(k == n);
        assert(drained(m, q, i, (len - i + n) as nat) == seq![cur] + drained(m, rest, 0, n));
        assert(items.subrange(i + 1, len) =~= Seq::<ItemId>::empty());
        assert(subcontainers(m, items.subrange(i + 1, len)) == Seq::<ItemId>::empty());
        assert(rest =~= q.drop_first() + subcontainers(m, items.subrange(i, len)));
        assert(items.subrange(i, len) =~= seq![cur]);
    }
}

/// Draining a live queue that the breadth-first listing empties within `fuel`
/// containers hands out exactly that listing, however many more calls are made.
proof fn lemma_drain_bfs(m: ContainerMap, q: Seq<ItemId>, fuel: nat, n: nat)
    requires
        live_queue(m, q),
        bfs_done(m, q, fuel),
        n >= bfs_items(m, q, fuel).len(),
    ensures
        drained(m, q, 0, n) == bfs_items(m, q, fuel),
    decreases fuel,
{
    if q.len() == 0 {
        if n > 0 {
            assert(spec_peek(m, q, 0) is None);
        }
    } else {
        let items = m[q[0]].items@;
        let len = clen(m, q[0]);
        let q2 = q.drop_first() + subcontainers(m, items);
        lemma_subcontainers_live(m, items);
        assert(live_queue(m, q2)) by {
            assert forall|k: int| 0 <= k < q2.len() implies clen(m, #[trigger] q2[k]) > 0 by {
                if k < q.len() - 1 {
                    assert(q2[k] == q[k + 1]);
                } else {
                    assert(q2[k] == subcontainers(m, items)[k - (q.len() - 1)]);
                }
            }
        }
        let rest = bfs_items(m, q2, (fuel - 1) as nat);
        assert(bfs_items(m, q, fuel) == items + rest);
        assert(len == items.len());
        let n2 = (n - len) as nat;
        lemma_drain_bfs(m, q2, (fuel - 1) as nat, n2);
        lemma_drain_front(m, q, 0, n2);
        assert(items.subrange(0, len) =~= items);
        assert((len - 0 + n2) as nat == n);
    }
}

/// The whole walk of a fresh iterator over `root` (`ContainerIterator::new`, then
/// `next_item` until it gives `None`): when the breadth-first listing of `root` ends
/// within `fuel` containers, the items handed out are exactly that listing, breadth
/// first: the root's items in order, then the items of each non-empty registered
/// container among them, in the order those containers were handed out, and so on;
/// every further call gives `None`. The root itself is never handed out.
pub proof fn lemma_walk_breadth_first(m: ContainerMap, root: ItemId, fuel: nat, n: nat)
    requires
        bfs_done(m, start_queue(m, root), fuel),
        n >= bfs_items(m, start_queue(m, root), fuel).len(),
    ensures
        drained(m, start_queue(m, root), 0, n) == bfs_items(m, start_queue(m, root), fuel),
        clen(m, root) > 0 ==> bfs_items(m, start_queue(m, root), fuel).subrange(0, clen(m, root)) == m[root].items@,
{
    let q = start_queue(m, root);
    assert(live_queue(m, q));
    lemma_drain_bfs(m, q, fuel, n);
    if clen(m, root) > 0 {
        let items = m[root].items@;
        assert(q[0] == root);
        assert(fuel > 0);
        let q2 = q.drop_first() + subcontainers(m, items);
        assert(bfs_items(m, q, fuel) == items + bfs_items(m, q2, (fuel - 1) as nat));
        assert((items + bfs_items(m, q2, (fuel - 1) as nat)).subrange(0, items.len() as int) =~= items);
    }
}

/// The containers whose items the breadth-first listing of `q` lists, in order.
pub open spec fn bfs_containers(m: ContainerMap, q: Seq<ItemId>, fuel: nat) -> Seq<ItemId>
    decreases fuel,
{
    if fuel == 0 || q.len() == 0 {
        Seq::<ItemId>::empty()
    } else {
        seq![q[0]] + bfs_containers(m, q.drop_first() + subcontainers(m, m[q[0]].items@), (fuel - 1) as nat)
    }
}

/// The items of the containers `cs`, one container after the other.
pub open spec fn items_of(m: ContainerMap, cs: Seq<ItemId>) -> Seq<ItemId>
    decreases cs.len(),
{
    if cs.len() == 0 {
        Seq::<ItemId>::empty()
    } else {
        m[cs[0]].items@ + items_of(m, cs.drop_first())
    }
}

/// `c` is the root or inside it.
pub open spec fn in_tree(m: ContainerMap, root: ItemId, c: ItemId) -> bool {
    c == root || holds(m, root, c)
}

/// The nesting below `root` is a tree: the root is not inside itself, and no registered
/// container sits in two slots of the root and the containers inside it.
pub open spec fn nesting_is_tree(m: ContainerMap, root: ItemId) -> bool {
    &&& !holds(m, root, root)
    &&& forall|c1: ItemId, c2: ItemId, i: int, j: int|
        in_tree(m, root, c1) && in_tree(m, root, c2) && m.contains_key(c1) && m.contains_key(c2)
            && 0 <= i < m[c1].items@.len() && 0 <= j < m[c2].items@.len()
            && #[trigger] m[c1].items@[i] == #[trigger] m[c2].items@[j] && m.contains_key(m[c1].items@[i])
            ==> c1 == c2 && i == j
}

proof fn lemma_bfs_items_of(m: ContainerMap, q: Seq<ItemId>, fuel: nat)
    ensures
        bfs_items(m, q, fuel) == items_of(m, bfs_containers(m, q, fuel)),
    decreases fuel,
{
    if fuel > 0 && q.len() > 0 {
        let q2 = q.drop_first() + subcontainers(m, m[q[0]].items@);
        lemma_bfs_items_of(m, q2, (fuel - 1) as nat);
        let cs = bfs_containers(m, q, fuel);
        assert(cs[0] == q[0]);
        assert(cs.drop_first() =~= bfs_containers(m, q2, (fuel - 1) as nat));
    }
}

proof fn lemma_subcontainers_facts(m: ContainerMap, s: Seq<ItemId>)
    ensures
        forall|x: ItemId| #[trigger] subcontainers(m, s).contains(x) ==>
            clen(m, x) > 0 && exists|i: int| 0 <= i < s.len() && s[i] == x,
        forall|i: int| 0 <= i < s.len() && clen(m, s[i]) > 0 ==> subcontainers(m, s).contains(#[trigger] s[i]),
        (forall|i: int, j: int| 0 <= i < j < s.len() && clen(m, s[i]) > 0 ==> #[trigger] s[i] != #[trigger] s[j])
            ==> subcontainers(m, s).no_duplicates(),
    decreases s.len(),
{
    if s.len() > 0 {
        let t = s.drop_first();
        lemma_subcontainers_facts(m, t);
        let h = if clen(m, s[0]) > 0 { seq![s[0]] } else { Seq::<ItemId>::empty() };
        let sub = subcontainers(m, s);
        assert(sub == h + subcontainers(m, t));
        assert forall|x: ItemId| #[trigger] sub.contains(x) implies
            clen(m, x) > 0 && exists|i: int| 0 <= i < s.len() && s[i] == x by {
            let k = choose|k: int| 0 <= k < sub.len() && sub[k] == x;
            if k < h.len() {
                assert(s[0] == x);
            } else {
                assert(subcontainers(m, t)[k - h.len()] == x);
                assert(subcontainers(m, t).contains(x));
                let i = choose|i: int| 0 <= i < t.len() && t[i] == x;
                assert(s[i + 1] == x);
            }
        }
        assert forall|i: int| 0 <= i < s.len() && clen(m, s[i]) > 0 implies sub.contains(#[trigger] s[i]) by {
            if i == 0 {
                assert(sub[0] == s[0]);
            } else {
                assert(t[i - 1] == s[i]);
                assert(subcontainers(m, t).contains(t[i - 1]));
                let k = choose|k: int| 0 <= k < subcontainers(m, t).len() && subcontainers(m, t)[k] == s[i];
                assert(sub[k + h.len()] == s[i]);
            }
        }
        if forall|i: int, j: int| 0 <= i < j < s.len() && clen(m, s[i]) > 0 ==> #[trigger] s[i] != #[trigger] s[j] {
            assert forall|i: int, j: int| 0 <= i < j < t.len() && clen(m, t[i]) > 0 implies #[trigger] t[i] != #[trigger] t[j] by {
                assert(t[i] == s[i + 1] && t[j] == s[j + 1]);
            }
            if h.len() > 0 {
                assert(!subcontainers(m, t).contains(s[0])) by {
                    if subcontainers(m, t).contains(s[0]) {
                        let i = choose|i: int| 0 <= i < t.len() && t[i] == s[0];
                        assert(s[i + 1] == s[0]);
                    }
                }
                vstd::seq_lib::lemma_no_dup_in_concat(h, subcontainers(m, t));
            } else {
                assert(sub =~= subcontainers(m, t));
            }
        }
    }
}

proof fn lemma_holds_within_step(m: ContainerMap, a: ItemId, b: ItemId, f: nat, i: int)
    requires
        holds_within(m, a, b, f),
        m.contains_key(b),
        0 <= i < m[b].items@.len(),
    ensures
        holds_within(m, a, m[b].items@[i], f + 1),
    decreases f,
{
    let c = m[b].items@[i];
    let j = choose|j: int| 0 <= j < m[a].items@.len() && (m[a].items@[j] == b
        || holds_within(m, m[a].items@[j], b, (f - 1) as nat));
    if m[a].items@[j] == b {
        assert(holds_within(m, b, c, 1));
        lemma_holds_within_mono(m, b, c, 1, f);
        assert(holds_within(m, m[a].items@[j], c, f));
    } else {
        lemma_holds_within_step(m, m[a].items@[j], b, (f - 1) as nat, i);
    }
}

/// What is inside a container of the tree is in the tree.
proof fn lemma_in_tree_child(m: ContainerMap, root: ItemId, b: ItemId, i: int)
    requires
        in_tree(m, root, b),
        m.contains_key(b),
        0 <= i < m[b].items@.len(),
    ensures
        holds(m, root, m[b].items@[i]),
{
    let c = m[b].items@[i];
    if b == root {
        assert(holds_within(m, root, c, 1));
    } else {
        let f = choose|f: nat| holds_within(m, root, b, f);
        lemma_holds_within_step(m, root, b, f, i);
    }
}

/// A point of the breadth-first walk of a tree below `root`: `done` are the containers
/// listed so far and `q` the queue. The queue has no repeats and nothing listed; all of
/// them are in the tree and registered; each is the root or sits in a listed container;
/// and every non-empty registered container in a listed one is listed or queued.
spec fn walk_state(m: ContainerMap, root: ItemId, q: Seq<ItemId>, done: Set<ItemId>) -> bool {
    &&& done.finite()
    &&& q.no_duplicates()
    &&& live_queue(m, q)
    &&& forall|k: int| 0 <= k < q.len() ==> !done.contains(#[trigger] q[k]) && in_tree(m, root, q[k])
    &&& forall|c: ItemId| #[trigger] done.contains(c) ==> m.contains_key(c) && in_tree(m, root, c)
    &&& forall|c: ItemId| (#[trigger] done.contains(c) || q.contains(c)) ==> c == root
        || exists|p: ItemId, i: int| done.contains(p) && 0 <= i < m[p].items@.len() && #[trigger] m[p].items@[i] == c
    &&& forall|p: ItemId, i: int| done.contains(p) && 0 <= i < m[p].items@.len() && clen(m, #[trigger] m[p].items@[i]) > 0
        ==> done.contains(m[p].items@[i]) || q.contains(m[p].items@[i])
}

/// One container of the walk: the front moves to `done` and its non-empty sub-containers
/// join the queue, which keeps the walk state.
proof fn lemma_walk_state_step(m: ContainerMap, root: ItemId, q: Seq<ItemId>, done: Set<ItemId>)
    requires
        nesting_is_tree(m, root),
        walk_state(m, root, q, done),
        q.len() > 0,
    ensures
        walk_state(m, root, q.drop_first() + subcontainers(m, m[q[0]].items@), done.insert(q[0])),
        !done.contains(q[0]),
        m.contains_key(q[0]),
{
    let f = q[0];
    let items = m[f].items@;
    let rest = q.drop_first();
    let sub = subcontainers(m, items);
    let q2 = rest + sub;
    let d2 = done.insert(f);
    assert(clen(m, q[0]) > 0);
    assert(m.contains_key(f));
    assert(in_tree(m, root, f));
    lemma_subcontainers_facts(m, items);
    lemma_subcontainers_live(m, items);
    // sub-containers of the front: in the tree, and nowhere else yet
    assert forall|x: ItemId| #[trigger] sub.contains(x) implies
        holds(m, root, x) && !done.contains(x) && !q.contains(x)
        && exists|i: int| 0 <= i < items.len() && items[i] == x by {
        let i = choose|i: int| 0 <= i < items.len() && items[i] == x;
        lemma_in_tree_child(m, root, f, i);
        assert(clen(m, x) > 0);
        assert(x != root) by {
            if x == root {
                assert(holds(m, root, root));
            }
        }
        if done.contains(x) || q.contains(x) {
            let (p, j) = choose|p: ItemId, j: int| done.contains(p) && 0 <= j < m[p].items@.len() && #[trigger] m[p].items@[j] == x;
            assert(in_tree(m, root, p));
            assert(m[p].items@[j] == m[f].items@[i]);
            assert(p == f);
            assert(q[0] == f);
            assert(!done.contains(q[0]));
        }
    }
    assert(sub.no_duplicates()) by {
        assert forall|i: int, j: int| 0 <= i < j < items.len() && clen(m, items[i]) > 0 implies #[trigger] items[i] != #[trigger] items[j] by {
            if items[i] == items[j] {
                assert(m[f].items@[i] == m[f].items@[j]);
            }
        }
    }
    assert(rest.no_duplicates());
    assert forall|a: int, b: int| 0 <= a < rest.len() && 0 <= b < sub.len() implies rest[a] != sub[b] by {
        assert(sub.contains(sub[b]));
        assert(q[a + 1] == rest[a]);
        assert(q.contains(rest[a]));
    }
    vstd::seq_lib::lemma_no_dup_in_concat(rest, sub);
    assert(live_queue(m, q2)) by {
        assert forall|k: int| 0 <= k < q2.len() implies clen(m, #[trigger] q2[k]) > 0 by {
            if k < rest.len() {
                assert(q2[k] == q[k + 1]);
            } else {
                assert(q2[k] == sub[k - rest.len()]);
            }
        }
    }
    assert forall|k: int| 0 <= k < q2.len() implies !d2.contains(#[trigger] q2[k]) && in_tree(m, root, q2[k]) by {
        if k < rest.len() {
            assert(q2[k] == q[k + 1]);
            assert(q[k + 1] != q[0]);
        } else {
            assert(q2[k] == sub[k - rest.len()]);
            assert(sub.contains(q2[k]));
            assert(q2[k] != f) by {
                assert(!q.contains(q2[k]));
                assert(q.contains(q[0]));
            }
        }
    }
    assert forall|c: ItemId| #[trigger] d2.contains(c) implies m.contains_key(c) && in_tree(m, root, c) by {}
    assert forall|c: ItemId| (#[trigger] d2.contains(c) || q2.contains(c)) implies c == root
        || exists|p: ItemId, i: int| d2.contains(p) && 0 <= i < m[p].items@.len() && #[trigger] m[p].items@[i] == c by {
        if q2.contains(c) {
            let k = choose|k: int| 0 <= k < q2.len() && q2[k] == c;
            if k < rest.len() {
                assert(q[k + 1] == c);
                assert(q.contains(c));
            } else {
                assert(sub[k - rest.len()] == c);
                assert(sub.contains(c));
                let i = choose|i: int| 0 <= i < items.len() && items[i] == c;
                assert(d2.contains(f) && m[f].items@[i] == c);
            }
        } else if c == f {
            assert(q.contains(q[0]));
        }
    }
    assert forall|p: ItemId, i: int| d2.contains(p) && 0 <= i < m[p].items@.len() && clen(m, #[trigger] m[p].items@[i]) > 0
        implies d2.contains(m[p].items@[i]) || q2.contains(m[p].items@[i]) by {
        let c = m[p].items@[i];
        if p == f {
            assert(items[i] == c);
            assert(sub.contains(c));
            let b = choose|b: int| 0 <= b < sub.len() && sub[b] == c;
            assert(q2[rest.len() + b] == c);
        } else {
            assert(done.contains(c) || q.contains(c));
            if !done.contains(c) && c != f {
                let k = choose|k: int| 0 <= k < q.len() && q[k] == c;
                assert(k != 0);
                assert(q2[k - 1] == c);
            }
        }
    }
}

proof fn lemma_tree_walk(m: ContainerMap, root: ItemId, q: Seq<ItemId>, done: Set<ItemId>, fuel: nat)
    requires
        nesting_is_tree(m, root),
        walk_state(m, root, q, done),
        m.dom().finite(),
        done.subset_of(m.dom()),
        fuel + done.len() >= m.dom().len() + 1,
    ensures
        bfs_done(m, q, fuel),
        bfs_containers(m, q, fuel).no_duplicates(),
        forall|c: ItemId| #[trigger] bfs_containers(m, q, fuel).contains(c)
            ==> !done.contains(c) && clen(m, c) > 0 && in_tree(m, root, c),
        forall|c: ItemId| q.contains(c) ==> #[trigger] bfs_containers(m, q, fuel).contains(c),
        forall|p: ItemId, i: int| (done.contains(p) || bfs_containers(m, q, fuel).contains(p))
            && 0 <= i < m[p].items@.len() && clen(m, #[trigger] m[p].items@[i]) > 0
            ==> done.contains(m[p].items@[i]) || bfs_containers(m, q, fuel).contains(m[p].items@[i]),
    decreases fuel,
{
    let cs = bfs_containers(m, q, fuel);
    if q.len() == 0 {
        assert(cs =~= Seq::<ItemId>::empty());
    } else {
        let f = q[0];
        lemma_walk_state_step(m, root, q, done);
        let q2 = q.drop_first() + subcontainers(m, m[f].items@);
        let d2 = done.insert(f);
        assert(d2.subset_of(m.dom()));
        vstd::set_lib::lemma_len_subset(d2, m.dom());
        assert(d2.len() == done.len() + 1);
        assert(fuel >= 1);
        let f2 = (fuel - 1) as nat;
        lemma_tree_walk(m, root, q2, d2, f2);
        let cs2 = bfs_containers(m, q2, f2);
        assert(cs == seq![f] + cs2);
        assert(!cs2.contains(f));
        assert(cs.no_duplicates()) by {
            assert forall|a: int, b: int| 0 <= a < b < cs.len() implies cs[a] != cs[b] by {
                if a == 0 {
                    assert(cs[b] == cs2[b - 1]);
                    assert(cs2.contains(cs2[b - 1]));
                } else {
                    assert(cs[a] == cs2[a - 1] && cs[b] == cs2[b - 1]);
                }
            }
        }
        assert forall|c: ItemId| #[trigger] cs.contains(c) implies !done.contains(c) && clen(m, c) > 0 && in_tree(m, root, c) by {
            let k = choose|k: int| 0 <= k < cs.len() && cs[k] == c;
            if k > 0 {
                assert(cs2[k - 1] == c);
                assert(cs2.contains(c));
            }
        }
        assert forall|c: ItemId| q.contains(c) implies #[trigger] cs.contains(c) by {
            let k = choose|k: int| 0 <= k < q.len() && q[k] == c;
            if k == 0 {
                assert(cs[0] == c);
            } else {
                assert(q2[k - 1] == c);
                assert(q2.contains(c));
                assert(cs2.contains(c));
                let t = choose|t: int| 0 <= t < cs2.len() && cs2[t] == c;
                assert(cs[t + 1] == c);
            }
        }
        assert forall|p: ItemId, i: int| (done.contains(p) || cs.contains(p))
            && 0 <= i < m[p].items@.len() && clen(m, #[trigger] m[p].items@[i]) > 0
            implies done.contains(m[p].items@[i]) || cs.contains(m[p].items@[i]) by {
            let c = m[p].items@[i];
            if cs.contains(p) && p != f {
                let k = choose|k: int| 0 <= k < cs.len() && cs[k] == p;
                assert(cs2[k - 1] == p);
                assert(cs2.contains(p));
            }
            assert(d2.contains(p) || cs2.contains(p));
            assert(d2.contains(c) || cs2.contains(c));
            if c == f {
                assert(cs[0] == c);
            } else if cs2.contains(c) {
                let t = choose|t: int| 0 <= t < cs2.len() && cs2[t] == c;
                assert(cs[t + 1] == c);
            }
        }
    }
}

proof fn lemma_items_of_contains(m: ContainerMap, cs: Seq<ItemId>, x: ItemId)
    requires
        items_of(m, cs).contains(x),
    ensures
        exists|k: int, i: int| 0 <= k < cs.len() && 0 <= i < m[cs[k]].items@.len() && #[trigger] m[cs[k]].items@[i] == x,
    decreases cs.len(),
{
    let head = m[cs[0]].items@;
    let t = items_of(m, cs.drop_first());
    assert(items_of(m, cs) == head + t);
    let n = choose|n: int| 0 <= n < (head + t).len() && (head + t)[n] == x;
    if n < head.len() {
        assert(m[cs[0]].items@[n] == x);
    } else {
        assert(t[n - head.len()] == x);
        lemma_items_of_contains(m, cs.drop_first(), x);
        let (k, i) = choose|k: int, i: int| 0 <= k < cs.drop_first().len() && 0 <= i < m[cs.drop_first()[k]].items@.len()
            && #[trigger] m[cs.drop_first()[k]].items@[i] == x;
        assert(cs[k + 1] == cs.drop_first()[k]);
    }
}

proof fn lemma_closed_reaches(m: ContainerMap, cs: Seq<ItemId>, x: ItemId, c: ItemId, f: nat)
    requires
        cs.contains(x),
        holds_within(m, x, c, f),
        clen(m, c) > 0,
        forall|p: ItemId, i: int| cs.contains(p) && 0 <= i < m[p].items@.len() && clen(m, #[trigger] m[p].items@[i]) > 0
            ==> cs.contains(m[p].items@[i]),
    ensures
        cs.contains(c),
    decreases f,
{
    let j = choose|j: int| 0 <= j < m[x].items@.len() && (m[x].items@[j] == c
        || holds_within(m, m[x].items@[j], c, (f - 1) as nat));
    let y = m[x].items@[j];
    if y != c {
        assert(m.contains_key(y) && m[y].items@.len() > 0);
        assert(clen(m, y) > 0);
        assert(cs.contains(y));
        lemma_closed_reaches(m, cs, y, c, (f - 1) as nat);
    }
}

/// The walk of a tree (`nesting_is_tree`) ends: its breadth-first listing empties the
/// queue within one more container than are registered, so `lemma_walk_breadth_first`
/// applies. The items handed out are those of the containers listed, one container after
/// the other; these containers are each listed once, and they are exactly the non-empty
/// registered containers of the tree (the root and everything inside it). The root
/// itself is never handed out.
pub proof fn lemma_walk_of_tree(m: ContainerMap, root: ItemId)
    requires
        m.dom().finite(),
        nesting_is_tree(m, root),
    ensures
        bfs_done(m, start_queue(m, root), m.dom().len() + 1),
        bfs_items(m, start_queue(m, root), m.dom().len() + 1)
            == items_of(m, bfs_containers(m, start_queue(m, root), m.dom().len() + 1)),
        bfs_containers(m, start_queue(m, root), m.dom().len() + 1).no_duplicates(),
        forall|c: ItemId| #[trigger] bfs_containers(m, start_queue(m, root), m.dom().len() + 1).contains(c)
            <==> (clen(m, c) > 0 && in_tree(m, root, c)),
        !bfs_items(m, start_queue(m, root), m.dom().len() + 1).contains(root),
{
    let q = start_queue(m, root);
    let fuel = (m.dom().len() + 1) as nat;
    let done = Set::<ItemId>::empty();
    assert(walk_state(m, root, q, done)) by {
        if q.len() > 0 {
            assert(q[0] == root);
        }
        assert forall|c: ItemId| (#[trigger] done.contains(c) || q.contains(c)) implies c == root
            || exists|p: ItemId, i: int| done.contains(p) && 0 <= i < m[p].items@.len() && #[trigger] m[p].items@[i] == c by {
            if q.contains(c) {
                let k = choose|k: int| 0 <= k < q.len() && q[k] == c;
            }
        }
    }
    lemma_tree_walk(m, root, q, done, fuel);
    lemma_bfs_items_of(m, q, fuel);
    let cs = bfs_containers(m, q, fuel);
    assert forall|c: ItemId| clen(m, c) > 0 && in_tree(m, root, c) implies #[trigger] cs.contains(c) by {
        if clen(m, root) > 0 {
            assert(q.contains(root)) by {
                assert(q[0] == root);
            }
            assert(cs.contains(root));
        }
        if c == root {
        } else {
            let f = choose|f: nat| holds_within(m, root, c, f);
            assert(f > 0 && m.contains_key(root));
            let j = choose|j: int| 0 <= j < m[root].items@.len() && (m[root].items@[j] == c
                || holds_within(m, m[root].items@[j], c, (f - 1) as nat));
            assert(clen(m, root) > 0);
            lemma_closed_reaches(m, cs, root, c, f);
        }
    }
    assert(!items_of(m, cs).contains(root)) by {
        if items_of(m, cs).contains(root) {
            lemma_items_of_contains(m, cs, root);
            let (k, i) = choose|k: int, i: int| 0 <= k < cs.len() && 0 <= i < m[cs[k]].items@.len()
                && #[trigger] m[cs[k]].items@[i] == root;
            assert(cs.contains(cs[k]));
            assert(clen(m, cs[k]) > 0);
            lemma_in_tree_child(m, root, cs[k], i);
        }
    }
}

/// `target` is among the items of container `c` or, within `fuel - 1` more levels,
/// of the containers it holds.
pub open spec fn holds_within(m: ContainerMap, c: ItemId, target: ItemId, fuel: nat) -> bool
    decreases fuel,
{
    if fuel == 0 || !m.contains_key(c) {
        false
    } else {
        exists|i: int| 0 <= i < m[c].items@.len() && (m[c].items@[i] == target
            || holds_within(m, m[c].items@[i], target, (fuel - 1) as nat))
    }
}

/// `target` is somewhere in the tree of container `c`.
pub open spec fn holds(m: ContainerMap, c: ItemId, target: ItemId) -> bool {
    exists|fuel: nat| holds_within(m, c, target, fuel)
}

/// No container holds itself, directly or not: a rank decreasing from each container
/// to every registered container it holds.
pub open spec fn ranked(m: ContainerMap, rank: spec_fn(ItemId) -> nat) -> bool {
    forall|c: ItemId, i: int| #[trigger] m.contains_key(c) && 0 <= i < m[c].items@.len() && #[trigger] m.contains_key(m[c].items@[i])
        ==> rank(m[c].items@[i]) < rank(c)
}

proof fn lemma_holds_within_mono(m: ContainerMap, c: ItemId, target: ItemId, f1: nat, f2: nat)
    requires
        f1 <= f2,
        holds_within(m, c, target, f1),
    ensures
        holds_within(m, c, target, f2),
    decreases f1,
{
    let i = choose|i: int| 0 <= i < m[c].items@.len() && (m[c].items@[i] == target
        || holds_within(m, m[c].items@[i], target, (f1 - 1) as nat));
    if m[c].items@[i] != target {
        lemma_holds_within_mono(m, m[c].items@[i], target, (f1 - 1) as nat, (f2 - 1) as nat);
    }
}

fn holds_rec(registry: &ContainerRegistry, c: ItemId, target: ItemId, Ghost(rank): Ghost<spec_fn(ItemId) -> nat>) -> (r: bool)
    requires
        ranked(registry.containers_view(), rank),
        registry.containers_view().contains_key(c),
    ensures
        r == holds(registry.containers_view(), c, target),
    decreases rank(c),
{
    let ghost m = registry.containers_view();
    let cont = match registry.get(c) {
        Some(x) => x,
        None => {
            return false;
        },
    };
    let mut i: usize = 0;
    while i < cont.items.len()
        invariant
            *cont == m[c],
            m.contains_key(c),
            ranked(m, rank),
            m == registry.containers_view(),
            0 <= i <= cont.items@.len(),
            forall|j: int| 0 <= j < i ==> cont.items@[j] != target && !holds(m, #[trigger] cont.items@[j], target),
        decreases cont.items@.len() - i,
    {
        let item = cont.items[i];
        if item == target {
            proof {
                assert(holds_within(m, c, target, 1));
            }
            return true;
        }
        let sub = match registry.get(item) {
            Some(_) => {
                proof {
                    assert(m.contains_key(c) && 0 <= i < m[c].items@.len() && m.contains_key(m[c].items@[i as int]));
                }
                holds_rec(registry, item, target, Ghost(rank))
            },
            None => false,
        };
        if sub {
            proof {
                let f = choose|f: nat| holds_within(m, item, target, f);
                assert(holds_within(m, c, target, f + 1));
            }
            return true;
        }
        proof {
            if !m.contains_key(item) {
                assert forall|f: nat| !holds_within(m, item, target, f) by {}
            }
        }
        i = i + 1;
    }
    proof {
        assert forall|f: nat| !holds_within(m, c, target, f) by {
            if holds_within(m, c, target, f) {
                let j = choose|j: int| 0 <= j < m[c].items@.len() && (m[c].items@[j] == target
                    || holds_within(m, m[c].items@[j], target, (f - 1) as nat));
                assert(cont.items@[j] != target && !holds(m, cont.items@[j], target));
            }
        }
    }
    false
}

impl Container {
    /// Whether `target` is somewhere in the tree of the
    /// registered container with this container's item id (false when unregistered).
    /// The tree must be free of cycles, else the walk would not end.
    pub fn is_holding_item(&self, registry: &ContainerRegistry, target: ItemId) -> (r: bool)
        requires
            exists|rank: spec_fn(ItemId) -> nat| ranked(registry.containers_view(), rank),
        ensures
            r == holds(registry.containers_view(), self.item_id, target),
    {
        if registry.get(self.item_id).is_none() {
            proof {
                assert forall|f: nat| !holds_within(registry.containers_view(), self.item_id, target, f) by {}
            }
            return false;
        }
        let ghost rank = choose|rank: spec_fn(ItemId) -> nat| ranked(registry.containers_view(), rank);
        holds_rec(registry, self.item_id, target, Ghost(rank))
    }
}

// ---------------------------------------------------------------------------
// Laws of the slot and viewer operations
// ---------------------------------------------------------------------------

/// Removing the slot an item was just inserted at gives back the items as they were
/// (`insert_item` then `remove_item` at the same index).
pub proof fn lemma_insert_then_remove_restores(s: Seq<ItemId>, i: int, x: ItemId)
    requires
        0 <= i <= s.len(),
    ensures
        s.insert(i, x).remove(i) == s,
{
    assert(s.insert(i, x).remove(i) =~= s);
}

/// Removing the last slot after adding an item on top gives back the items as they were
/// (`add_item` then `remove_item` at the old item count).
pub proof fn lemma_add_then_remove_last_restores(s: Seq<ItemId>, x: ItemId)
    ensures
        s.push(x).remove(s.len() as int) == s,
{
    assert(s.push(x).remove(s.len() as int) =~= s);
}

/// Swapping the same two slots twice gives back the items as they were (`swap_items`).
pub proof fn lemma_swap_twice_restores(s: Seq<ItemId>, i: int, j: int)
    requires
        0 <= i < s.len(),
        0 <= j < s.len(),
    ensures
        ({
            let t = s.update(i, s[j]).update(j, s[i]);
            t.update(i, t[j]).update(j, t[i]) == s
        }),
{
    let t = s.update(i, s[j]).update(j, s[i]);
    assert(t.update(i, t[j]).update(j, t[i]) =~= s);
}

proof fn lemma_remove_all_gone(s: Seq<CreatureId>, x: CreatureId)
    ensures
        !remove_all(s, x).contains(x),
    decreases s.len(),
{
    if s.len() > 0 {
        lemma_remove_all_gone(s.drop_last(), x);
        let r = remove_all(s.drop_last(), x);
        if s.last() != x {
            assert forall|k: int| 0 <= k < r.push(s.last()).len() implies r.push(s.last())[k] != x by {
                if k < r.len() {
                    assert(r[k] != x);
                }
            }
        }
    }
}

/// A player removed as viewer is no viewer any more; adding a viewer twice is adding it
/// once; and removing right after adding is as removing alone (`add_viewer`,
/// `remove_viewer`, `is_viewer`).
pub proof fn lemma_viewer_add_remove(v: Seq<CreatureId>, p: CreatureId)
    ensures
        !remove_all(v, p).contains(p),
        add_once(v, p).contains(p),
        add_once(add_once(v, p), p) == add_once(v, p),
        remove_all(add_once(v, p), p) == remove_all(v, p),
{
    lemma_remove_all_gone(v, p);
    if !v.contains(p) {
        assert(v.push(p).drop_last() =~= v);
        assert(v.push(p)[v.len() as int] == p);
    }
}

} // verus!
