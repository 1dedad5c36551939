use std::collections::HashMap;

use tfs_core::container::{Container, ContainerRegistry, ContainerType};
use tfs_core::container_ops::{
    container_query_add, container_query_destination, container_query_max_count,
    container_query_remove, get_thing_index_in_container, house_invite_verdict,
    player_holds_container_tree, query_add_for_player, resolve_container_move_destination,
    top_container_item_id, ContainerDestResolution, Cylinder, CylinderFlags, ItemFacts, ItemTable,
    ItemTypeFacts, ReturnValue, INDEX_ADD_WHEREVER, INDEX_MOVE_UP, INDEX_WHEREEVER,
};

const BAG: u16 = 1987;
const COIN: u16 = 2148;
const SWORD: u16 = 2376;
const STATUE: u16 = 1444;
const POTION: u16 = 2006;

fn no_flags() -> CylinderFlags {
    CylinderFlags { child_is_owner: false, no_limit: false, ignore_not_moveable: false, ignore_auto_stack: false }
}

fn types() -> HashMap<u16, ItemTypeFacts> {
    let mut t = HashMap::new();
    let plain = ItemTypeFacts { pickupable: true, stackable: false, moveable: true, splash_or_fluid: false };
    t.insert(BAG, plain);
    t.insert(SWORD, plain);
    t.insert(COIN, ItemTypeFacts { stackable: true, ..plain });
    t.insert(POTION, ItemTypeFacts { stackable: true, splash_or_fluid: true, ..plain });
    t.insert(STATUE, ItemTypeFacts { pickupable: false, moveable: false, ..plain });
    t
}

fn item(item_type: u16, count: u16) -> ItemFacts {
    ItemFacts { item_type, count, fluid_type: 0, store_item: false }
}

fn bag(id: u64, capacity: u32, parent: Option<u64>, items: Vec<u64>) -> Container {
    let mut c = Container::new(id, capacity);
    c.parent_container = parent;
    c.items = items;
    c
}

/// Backpack 1 (capacity 3) holds bag 2 (capacity 2) and coins 10 (40); bag 2 holds
/// coins 11 (100). Loose: sword 20, coins 21 (30), statue 22, bag 3 (unregistered).
fn world() -> (ContainerRegistry, ItemTable) {
    let mut reg = ContainerRegistry::new();
    reg.register(bag(1, 3, None, vec![2, 10]));
    reg.register(bag(2, 2, Some(1), vec![11]));
    let mut items = HashMap::new();
    items.insert(1, item(BAG, 1));
    items.insert(2, item(BAG, 1));
    items.insert(10, item(COIN, 40));
    items.insert(11, item(COIN, 100));
    items.insert(20, item(SWORD, 1));
    items.insert(21, item(COIN, 30));
    items.insert(22, item(STATUE, 1));
    (reg, ItemTable { items, types: types() })
}

#[test]
fn query_add_rules() {
    let (reg, table) = world();
    let f = no_flags();
    assert_eq!(container_query_add(&reg, &table, 1, INDEX_WHEREEVER, 20, 1, f), ReturnValue::NoError);
    assert_eq!(container_query_add(&reg, &table, 99, INDEX_WHEREEVER, 20, 1, f), ReturnValue::NotPossible);
    assert_eq!(container_query_add(&reg, &table, 1, INDEX_WHEREEVER, 99, 1, f), ReturnValue::NotPossible);
    assert_eq!(container_query_add(&reg, &table, 1, INDEX_WHEREEVER, 22, 1, f), ReturnValue::CannotPickup);
    assert_eq!(container_query_add(&reg, &table, 2, INDEX_WHEREEVER, 2, 1, f), ReturnValue::ThisIsImpossible);
    // The backpack cannot go into the bag it holds.
    assert_eq!(container_query_add(&reg, &table, 2, 0, 1, 1, f), ReturnValue::ThisIsImpossible);
    let owner = CylinderFlags { child_is_owner: true, ..f };
    assert_eq!(container_query_add(&reg, &table, 2, 0, 1, 1, owner), ReturnValue::NoError);
}

#[test]
fn query_add_capacity_locks_and_inboxes() {
    let (mut reg, mut table) = world();
    let f = no_flags();
    // Bag 2 has one free slot; fill it, then "anywhere" fails but a given slot passes.
    reg.register(bag(2, 2, Some(1), vec![11, 21]));
    assert_eq!(container_query_add(&reg, &table, 2, INDEX_WHEREEVER, 20, 1, f), ReturnValue::ContainerNotEnoughRoom);
    assert_eq!(container_query_add(&reg, &table, 2, 0, 20, 1, f), ReturnValue::NoError);
    let no_limit = CylinderFlags { no_limit: true, ..f };
    assert_eq!(container_query_add(&reg, &table, 2, INDEX_WHEREEVER, 20, 1, no_limit), ReturnValue::NoError);
    // Inside an inbox nothing is added without lifting limits.
    let mut inbox = bag(1, 3, None, vec![2, 10]);
    inbox.container_type = ContainerType::Inbox;
    reg.register(inbox);
    assert_eq!(container_query_add(&reg, &table, 2, 0, 20, 1, f), ReturnValue::ContainerNotEnoughRoom);
    assert_eq!(container_query_add(&reg, &table, 2, 0, 20, 1, no_limit), ReturnValue::NoError);
    // A locked container refuses.
    let mut locked = bag(5, 3, None, vec![]);
    locked.unlocked = false;
    reg.register(locked);
    assert_eq!(container_query_add(&reg, &table, 5, 0, 20, 1, f), ReturnValue::NotPossible);
    // Store items go to depots only.
    table.items.insert(30, ItemFacts { store_item: true, ..item(SWORD, 1) });
    reg.register(bag(6, 3, None, vec![]));
    assert_eq!(container_query_add(&reg, &table, 6, 0, 30, 1, f), ReturnValue::ItemCannotBeMovedThere);
    let mut depot = bag(7, 3, None, vec![]);
    depot.container_type = ContainerType::Depot;
    reg.register(depot);
    assert_eq!(container_query_add(&reg, &table, 7, 0, 30, 1, f), ReturnValue::NoError);
}

#[test]
fn query_add_for_a_player() {
    assert_eq!(house_invite_verdict(Some(4), Some(77), false), Some(ReturnValue::PlayerIsNotInvited));
    assert_eq!(house_invite_verdict(Some(4), Some(77), true), None);
    assert_eq!(house_invite_verdict(None, Some(77), false), None);
    assert_eq!(house_invite_verdict(Some(4), None, false), None);
    let f = no_flags();
    assert_eq!(query_add_for_player(ReturnValue::NoError, f, Some(ReturnValue::PlayerIsNotInvited), true, ReturnValue::NotPossible), ReturnValue::PlayerIsNotInvited);
    assert_eq!(query_add_for_player(ReturnValue::NoError, f, None, true, ReturnValue::NotPossible), ReturnValue::NotPossible);
    assert_eq!(query_add_for_player(ReturnValue::NoError, f, None, false, ReturnValue::NotPossible), ReturnValue::NoError);
    assert_eq!(query_add_for_player(ReturnValue::CannotPickup, f, None, true, ReturnValue::NoError), ReturnValue::CannotPickup);
}

#[test]
fn query_remove_rules() {
    let (reg, table) = world();
    let f = no_flags();
    assert_eq!(container_query_remove(&reg, &table, 1, 10, 40, f, None), ReturnValue::NoError);
    assert_eq!(container_query_remove(&reg, &table, 1, 10, 41, f, None), ReturnValue::NotPossible);
    assert_eq!(container_query_remove(&reg, &table, 1, 10, 0, f, None), ReturnValue::NotPossible);
    assert_eq!(container_query_remove(&reg, &table, 1, 11, 1, f, None), ReturnValue::NotPossible);
    let mut reg2 = ContainerRegistry::new();
    reg2.register(bag(1, 3, None, vec![22]));
    assert_eq!(container_query_remove(&reg2, &table, 1, 22, 1, f, None), ReturnValue::NotMoveable);
    let ignore = CylinderFlags { ignore_not_moveable: true, ..f };
    assert_eq!(container_query_remove(&reg2, &table, 1, 22, 1, ignore, None), ReturnValue::NoError);
}

#[test]
fn query_max_count_rules() {
    let (reg, table) = world();
    let f = no_flags();
    // Non-stackable: the free slots.
    assert_eq!(container_query_max_count(&reg, &table, 1, INDEX_WHEREEVER, 20, 1, f), Ok(1));
    assert_eq!(container_query_max_count(&reg, &table, 99, INDEX_WHEREEVER, 20, 1, f), Err(ReturnValue::NotPossible));
    // Coins anywhere in the backpack: one free slot (100) plus room on the stack of 40.
    assert_eq!(container_query_max_count(&reg, &table, 1, INDEX_WHEREEVER, 21, 30, f), Ok(160));
    assert_eq!(container_query_max_count(&reg, &table, 1, 1, 21, 30, f), Ok(160));
    assert_eq!(container_query_max_count(&reg, &table, 1, 0, 21, 30, f), Ok(100));
    assert_eq!(container_query_max_count(&reg, &table, 1, INDEX_WHEREEVER, 21, 161, f), Err(ReturnValue::ContainerNotEnoughRoom));
    // The bag's coin stack is full: only its free slot counts.
    assert_eq!(container_query_max_count(&reg, &table, 2, INDEX_WHEREEVER, 21, 30, f), Ok(100));
    let no_limit = CylinderFlags { no_limit: true, ..f };
    assert_eq!(container_query_max_count(&reg, &table, 1, INDEX_WHEREEVER, 21, 0, no_limit), Ok(1));
    assert_eq!(container_query_max_count(&reg, &table, 1, INDEX_WHEREEVER, 99, 1, f), Err(ReturnValue::NotPossible));
}

#[test]
fn query_max_count_full_container() {
    let (mut reg, table) = world();
    reg.register(bag(2, 1, Some(1), vec![11]));
    assert_eq!(container_query_max_count(&reg, &table, 2, INDEX_WHEREEVER, 20, 1, no_flags()), Err(ReturnValue::ContainerNotEnoughRoom));
}

#[test]
fn destination_rules() {
    let (reg, table) = world();
    let f = no_flags();
    // Up goes to the parent.
    let mut idx = INDEX_MOVE_UP;
    assert_eq!(
        container_query_destination(&reg, &table, 2, &mut idx, 20, None, f),
        Ok(ContainerDestResolution::Redirect(Cylinder::Container { item_id: 1, index: INDEX_WHEREEVER }))
    );
    assert_eq!(idx, INDEX_WHEREEVER);
    let mut idx = INDEX_MOVE_UP;
    assert_eq!(
        container_query_destination(&reg, &table, 1, &mut idx, 20, None, f),
        Ok(ContainerDestResolution::StayHere { index: INDEX_WHEREEVER, dest_stack_item: None })
    );
    // A slot holding a container leads into it.
    let mut idx = 0;
    assert_eq!(
        container_query_destination(&reg, &table, 1, &mut idx, 20, None, f),
        Ok(ContainerDestResolution::Redirect(Cylinder::Container { item_id: 2, index: INDEX_WHEREEVER }))
    );
    // Coins onto the coins in slot 1, or onto the first stack with room.
    let mut idx = 1;
    assert_eq!(
        container_query_destination(&reg, &table, 1, &mut idx, 21, None, f),
        Ok(ContainerDestResolution::StayHere { index: 1, dest_stack_item: Some(10) })
    );
    let mut idx = INDEX_ADD_WHEREVER;
    assert_eq!(
        container_query_destination(&reg, &table, 1, &mut idx, 21, None, f),
        Ok(ContainerDestResolution::StayHere { index: 1, dest_stack_item: Some(10) })
    );
    // From this same container, or without auto-stacking: no merge.
    let mut idx = 7;
    assert_eq!(
        container_query_destination(&reg, &table, 1, &mut idx, 21, Some(1), f),
        Ok(ContainerDestResolution::StayHere { index: INDEX_WHEREEVER, dest_stack_item: None })
    );
    let mut idx = 1;
    let no_stack = CylinderFlags { ignore_auto_stack: true, ..f };
    assert_eq!(
        container_query_destination(&reg, &table, 1, &mut idx, 21, None, no_stack),
        Ok(ContainerDestResolution::StayHere { index: 1, dest_stack_item: None })
    );
    // The full stack in the bag takes nothing.
    let mut idx = INDEX_WHEREEVER;
    assert_eq!(
        container_query_destination(&reg, &table, 2, &mut idx, 21, None, f),
        Ok(ContainerDestResolution::StayHere { index: INDEX_WHEREEVER, dest_stack_item: None })
    );
    let mut idx = 0;
    assert_eq!(container_query_destination(&reg, &table, 9, &mut idx, 21, None, f), Err(ReturnValue::NotPossible));
}

#[test]
fn fluids_stack_only_with_the_same_fluid() {
    let (mut reg, mut table) = world();
    table.items.insert(40, ItemFacts { fluid_type: 1, ..item(POTION, 5) });
    table.items.insert(41, ItemFacts { fluid_type: 2, ..item(POTION, 5) });
    table.items.insert(42, ItemFacts { fluid_type: 1, ..item(POTION, 5) });
    reg.register(bag(8, 5, None, vec![41, 40]));
    let mut idx = INDEX_WHEREEVER;
    assert_eq!(
        container_query_destination(&reg, &table, 8, &mut idx, 42, None, no_flags()),
        Ok(ContainerDestResolution::StayHere { index: 1, dest_stack_item: Some(40) })
    );
}

#[test]
fn resolve_follows_redirects() {
    let (reg, table) = world();
    let f = no_flags();
    assert_eq!(
        resolve_container_move_destination(&reg, &table, Cylinder::Container { item_id: 1, index: 0 }, 20, None, f),
        Ok((Cylinder::Container { item_id: 2, index: INDEX_WHEREEVER }, None))
    );
    assert_eq!(
        resolve_container_move_destination(&reg, &table, Cylinder::Container { item_id: 2, index: INDEX_MOVE_UP }, 21, None, f),
        Ok((Cylinder::Container { item_id: 1, index: 1 }, Some(10)))
    );
    assert_eq!(
        resolve_container_move_destination(&reg, &table, Cylinder::Inventory { player_id: 5, slot: 3 }, 21, None, f),
        Ok((Cylinder::Inventory { player_id: 5, slot: 3 }, None))
    );
}

#[test]
fn deep_chains() {
    // Twenty bags, each holding the next in its first slot.
    let mut reg = ContainerRegistry::new();
    let mut items = HashMap::new();
    for i in 1..=20u64 {
        let inner = if i < 20 { vec![i + 1] } else { vec![] };
        reg.register(bag(i, 3, if i > 1 { Some(i - 1) } else { None }, inner));
        items.insert(i, item(BAG, 1));
    }
    items.insert(100, item(SWORD, 1));
    let table = ItemTable { items, types: types() };
    // A move into slot 0 of bag 1 goes one level down and stays there.
    let r = resolve_container_move_destination(&reg, &table, Cylinder::Container { item_id: 1, index: 0 }, 100, None, no_flags());
    assert_eq!(r, Ok((Cylinder::Container { item_id: 2, index: INDEX_WHEREEVER }, None)));
    assert_eq!(top_container_item_id(&reg, 20), 1);
    assert_eq!(top_container_item_id(&reg, 500), 500);
    // Bag 1 cannot go anywhere inside its own tree.
    assert_eq!(container_query_add(&reg, &table, 20, 0, 1, 1, no_flags()), ReturnValue::ThisIsImpossible);
}

#[test]
fn tops_holders_and_indexes() {
    let (reg, _) = world();
    assert_eq!(top_container_item_id(&reg, 2), 1);
    assert_eq!(top_container_item_id(&reg, 1), 1);
    assert!(player_holds_container_tree(&reg, &vec![None, Some(1)], 2));
    assert!(player_holds_container_tree(&reg, &vec![Some(2)], 2));
    assert!(!player_holds_container_tree(&reg, &vec![Some(2), None], 1));
    assert_eq!(get_thing_index_in_container(&reg, 1, 10), Some(1));
    assert_eq!(get_thing_index_in_container(&reg, 1, 11), None);
    assert_eq!(get_thing_index_in_container(&reg, 9, 11), None);
}
