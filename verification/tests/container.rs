use tfs_core::container::{Container, ContainerError, ContainerIterator, ContainerRegistry};

#[test]
fn test_container_creation() {
    let container = Container::new(0, 20);
    assert_eq!(container.capacity, 20);
    assert!(container.is_empty());
    assert!(!container.is_full());
}

#[test]
fn test_add_remove_items() {
    let mut container = Container::new(0, 5);
    let item1 = 0;
    let item2 = 0;
    assert!(container.add_item(item1).is_ok());
    assert!(container.add_item(item2).is_ok());
    assert_eq!(container.size(), 2);
    let removed = container.remove_item(0).unwrap();
    assert_eq!(removed, item1);
    assert_eq!(container.size(), 1);
}

#[test]
fn test_container_full() {
    let mut container = Container::new(0, 2);
    assert!(container.add_item(0).is_ok());
    assert!(container.add_item(0).is_ok());
    assert!(container.is_full());
    assert!(matches!(container.add_item(0), Err(ContainerError::Full)));
}

#[test]
fn test_locked_container() {
    let mut container = Container::new(0, 5);
    container.unlocked = false;
    assert!(matches!(container.add_item(0), Err(ContainerError::Locked)));
    assert!(matches!(container.remove_item(0), Err(ContainerError::Locked)));
}

#[test]
fn test_viewer_tracking() {
    let mut container = Container::new(0, 5);
    let p1 = 0;
    let p2 = 1;
    let p3 = 2;
    container.add_viewer(p1);
    container.add_viewer(p2);
    assert!(container.is_viewer(p1));
    assert!(container.is_viewer(p2));
    assert!(!container.is_viewer(p3));
    container.remove_viewer(p1);
    assert!(!container.is_viewer(p1));
}

#[test]
fn test_container_registry() {
    let mut registry = ContainerRegistry::new();
    let container = Container::new(0, 10);
    let item_id = container.item_id;
    let player = 0;
    registry.register(container);
    assert!(registry.get(item_id).is_some());
    let cid = registry.assign_cid(player, item_id);
    assert_eq!(cid, Some(0));
    let retrieved = registry.get_container_by_cid(player, cid.unwrap_or(0));
    assert_eq!(retrieved, Some(item_id));
}

#[test]
fn container_iterator_order_matches_cpp_pattern() {
    let (root, a, b, a1) = (1, 2, 3, 4);
    let mut inner = Container::new(a, 8);
    inner.add_item(a1).unwrap();
    let mut outer = Container::new(root, 8);
    outer.add_item(a).unwrap();
    outer.add_item(b).unwrap();
    let mut registry = ContainerRegistry::new();
    registry.register(outer);
    registry.register(inner);
    let mut it = ContainerIterator::new(&registry, root);
    let mut order = Vec::new();
    while let Some(id) = it.next_item() {
        order.push(id);
    }
    assert_eq!(order, vec![a, b, a1]);
}

#[test]
fn is_holding_item_nested() {
    let (root, a, a1) = (1, 2, 3);
    let mut inner = Container::new(a, 8);
    inner.add_item(a1).unwrap();
    let mut outer = Container::new(root, 8);
    outer.add_item(a).unwrap();
    let mut registry = ContainerRegistry::new();
    registry.register(outer);
    registry.register(inner);
    let c = registry.get(root).unwrap();
    assert!(c.is_holding_item(&registry, a1));
    assert!(!c.is_holding_item(&registry, root));
}

#[test]
fn add_container_same_cid_replaces_and_moves_viewers() {
    let (c1, c2) = (1, 2);
    let player = 0;
    let mut registry = ContainerRegistry::new();
    registry.register(Container::new(c1, 10));
    registry.register(Container::new(c2, 10));
    assert_eq!(registry.add_container(player, c1, Some(3), 0), Some(3));
    assert!(registry.get(c1).unwrap().is_viewer(player));
    assert!(!registry.get(c2).unwrap().is_viewer(player));
    assert_eq!(registry.add_container(player, c2, Some(3), 0), Some(3));
    assert!(!registry.get(c1).unwrap().is_viewer(player));
    assert!(registry.get(c2).unwrap().is_viewer(player));
}

#[test]
fn remove_closes_windows_showing_the_container() {
    let mut registry = ContainerRegistry::new();
    registry.register(Container::new(7, 4));
    assert_eq!(registry.assign_cid(5, 7), Some(0));
    let (removed, closed) = registry.remove(7);
    assert!(removed.is_some());
    assert_eq!(closed, vec![(5, 0)]);
    assert_eq!(registry.get_container_by_cid(5, 0), None);
    assert!(registry.get(7).is_none());
}

#[test]
fn slots_and_pages() {
    let mut c = Container::new(1, 3);
    c.add_item(10).unwrap();
    c.add_item(11).unwrap();
    assert_eq!(c.available_slots(), 1);
    assert_eq!(c.index_of(11), Some(1));
    assert!(matches!(c.swap_items(0, 5), Err(ContainerError::InvalidSlot)));
    assert!(c.swap_items(0, 1).is_ok());
    assert_eq!(c.get_item(0), Some(11));
    assert_eq!(c.get_page(1, 5), vec![10]);
    assert_eq!(c.remove_specific_item(10), Ok(1));
    assert!(matches!(c.remove_specific_item(99), Err(ContainerError::ItemNotFound)));
}

#[test]
fn slot_and_viewer_operations_undo() {
    let mut c = Container::new(1, 10);
    for id in [5, 6, 7] {
        c.add_item(id).unwrap();
    }
    let before = c.items.clone();
    c.insert_item(1, 9).unwrap();
    assert_eq!(c.remove_item(1), Ok(9));
    assert_eq!(c.items, before);
    c.add_item(8).unwrap();
    assert_eq!(c.remove_item(before.len()), Ok(8));
    assert_eq!(c.items, before);
    c.swap_items(0, 2).unwrap();
    c.swap_items(0, 2).unwrap();
    assert_eq!(c.items, before);
    c.add_viewer(3);
    c.add_viewer(3);
    assert_eq!(c.viewer_count(), 1);
    c.remove_viewer(3);
    assert!(!c.is_viewer(3));
}

#[test]
fn open_window_clamps_and_pages() {
    let mut c = Container::new(1, 300);
    for i in 0..10u64 {
        c.add_item(100 + i).unwrap();
    }
    let w = c.open_window(4);
    assert_eq!(w.capacity, 255);
    assert_eq!(w.total_size, 10);
    assert_eq!(w.first_index, 4);
    assert_eq!(w.items, vec![104, 105, 106, 107, 108, 109]);
    let w = c.open_window(50);
    assert_eq!(w.first_index, 10);
    assert!(w.items.is_empty());
    let mut small = Container::new(2, 3);
    for i in 0..3u64 {
        small.add_item(i + 7).unwrap();
    }
    let w = small.open_window(1);
    assert_eq!(w.capacity, 3);
    assert_eq!(w.items, vec![8, 9]);
}

#[test]
fn walk_lists_nested_containers_breadth_first() {
    let (root, a, b, a1, b1, a2) = (1, 2, 3, 4, 5, 6);
    let mut ca = Container::new(a, 8);
    ca.add_item(a1).unwrap();
    ca.add_item(a2).unwrap();
    let mut cb = Container::new(b, 8);
    cb.add_item(b1).unwrap();
    let mut outer = Container::new(root, 8);
    outer.add_item(a).unwrap();
    outer.add_item(b).unwrap();
    let mut registry = ContainerRegistry::new();
    registry.register(outer);
    registry.register(ca);
    registry.register(cb);
    registry.register(Container::new(a1, 4));
    let mut it = ContainerIterator::new(&registry, root);
    let mut order = Vec::new();
    while let Some(id) = it.next_item() {
        order.push(id);
    }
    assert_eq!(order, vec![a, b, a1, a2, b1]);
    assert_eq!(it.next_item(), None);
}
