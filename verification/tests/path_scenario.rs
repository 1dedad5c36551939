use tfs_core::path_scenario::{dir_name, is_diagonal, parse_scenario, tile_key, wp_at, Direction};

#[test]
fn reads_every_setting() {
    let text = "# a comment\nname corner_case\nstart 100 100\ntarget 103 101\nvisible 8\nmax_steps 5\ndefault_wp 120\nblock 101 100\nwp 102 100 250\nwp 102 100 90\n\n   \r\n";
    let s = parse_scenario(text, 12);
    assert_eq!(s.name, "corner_case");
    assert_eq!(s.start, (100, 100));
    assert_eq!(s.target, (103, 101));
    assert_eq!(s.visible, 8);
    assert_eq!(s.max_steps, 5);
    assert_eq!(s.default_wp, 120);
    assert!(s.blocked.contains(&tile_key(101, 100)));
    assert_eq!(wp_at(&s, 101, 100), None);
    assert_eq!(wp_at(&s, 102, 100), Some(90));
    assert_eq!(wp_at(&s, 50, 50), Some(120));
}

#[test]
fn defaults_and_unreadable_numbers() {
    let s = parse_scenario("", 7);
    assert_eq!(s.name, "");
    assert_eq!((s.start, s.target), ((0, 0), (0, 0)));
    assert_eq!((s.visible, s.max_steps, s.default_wp), (10, 7, 150));
    let s = parse_scenario("start x 5\nvisible many\nmax_steps -1\ndefault_wp lots\nwp 1 1 z\nname\nblock 3\nfly 1 2\n  # start 9 9", 7);
    assert_eq!(s.start, (0, 5));
    assert_eq!(s.visible, 10);
    assert_eq!(s.max_steps, 3);
    assert_eq!(s.default_wp, 150);
    assert_eq!(wp_at(&s, 1, 1), Some(150));
    assert_eq!(s.name, "");
    assert!(s.blocked.is_empty());
    assert_eq!(tile_key(1, 2), 65538);
}

#[test]
fn direction_labels() {
    let all = [
        (Direction::North, "N", false),
        (Direction::East, "E", false),
        (Direction::South, "S", false),
        (Direction::West, "W", false),
        (Direction::NorthEast, "NE", true),
        (Direction::NorthWest, "NW", true),
        (Direction::SouthEast, "SE", true),
        (Direction::SouthWest, "SW", true),
    ];
    for (d, name, diag) in all {
        assert_eq!(dir_name(d), name);
        assert_eq!(is_diagonal(d), diag);
    }
}
