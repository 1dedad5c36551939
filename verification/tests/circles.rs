use tfs_core::combat::circles::{disc_offsets, disc_ring, disc_tile_count, MAX_DISC_RADIUS};

#[test]
fn disc_ring_counts_match_circles_dat() {
    let counts: Vec<usize> = (0..=MAX_DISC_RADIUS).map(|r| disc_ring(r).len()).collect();
    assert_eq!(counts.len(), 8, "rings 0-7");
    assert_eq!(counts, vec![1, 4, 4, 12, 16, 20, 16, 28]);
    let total: usize = counts.iter().sum();
    assert_eq!(total, 101, "total tiles from circles.dat");
}

#[test]
fn disc_offsets_radius_0_is_center() {
    let offsets = disc_offsets(0);
    assert_eq!(offsets, vec![(0, 0)]);
}

#[test]
fn disc_offsets_radius_1_is_plus_shape() {
    let offsets = disc_offsets(1);
    assert_eq!(offsets.len(), 5);
    assert!(offsets.contains(&(0, 0)));
    assert!(offsets.contains(&(0, -1)));
    assert!(offsets.contains(&(0, 1)));
    assert!(offsets.contains(&(-1, 0)));
    assert!(offsets.contains(&(1, 0)));
    assert!(!offsets.contains(&(-1, -1)));
}

#[test]
fn disc_offsets_radius_6_matches_ue() {
    let offsets = disc_offsets(6);
    assert_eq!(offsets.len(), 73);
}

#[test]
fn disc_offsets_radius_7_is_full_disc() {
    let offsets = disc_offsets(7);
    assert_eq!(offsets.len(), 101);
}

#[test]
fn disc_offsets_clamps_above_max() {
    let offsets = disc_offsets(99);
    assert_eq!(offsets.len(), 101, "clamped to max ring 7");
}

#[test]
fn disc_tile_count_matches_offsets() {
    for r in 0..=MAX_DISC_RADIUS {
        assert_eq!(disc_tile_count(r), disc_offsets(r).len());
    }
}

#[test]
fn disc_offsets_match_1098_tfs_grid() {
    let area_1098: [[i32; 13]; 13] = [
        [0, 0, 0, 0, 0, 0, 8, 0, 0, 0, 0, 0, 0],
        [0, 0, 0, 0, 8, 8, 7, 8, 8, 0, 0, 0, 0],
        [0, 0, 0, 8, 7, 6, 6, 6, 7, 8, 0, 0, 0],
        [0, 0, 8, 7, 6, 5, 5, 5, 6, 7, 8, 0, 0],
        [0, 8, 7, 6, 5, 4, 4, 4, 5, 6, 7, 8, 0],
        [0, 8, 6, 5, 4, 3, 2, 3, 4, 5, 6, 8, 0],
        [8, 7, 6, 5, 4, 2, 1, 2, 4, 5, 6, 7, 8],
        [0, 8, 6, 5, 4, 3, 2, 3, 4, 5, 6, 8, 0],
        [0, 8, 7, 6, 5, 4, 4, 4, 5, 6, 7, 8, 0],
        [0, 0, 8, 7, 6, 5, 5, 5, 6, 7, 8, 0, 0],
        [0, 0, 0, 8, 7, 6, 6, 6, 7, 8, 0, 0, 0],
        [0, 0, 0, 0, 8, 8, 7, 8, 8, 0, 0, 0, 0],
        [0, 0, 0, 0, 0, 0, 8, 0, 0, 0, 0, 0, 0],
    ];
    let center_1098 = 6;
    for r772 in 0..=7usize {
        let r1098 = (r772 + 1) as i32;
        let mut expected: Vec<(i32, i32)> = Vec::new();
        for y in 0..13 {
            for x in 0..13 {
                if area_1098[y][x] > 0 && area_1098[y][x] <= r1098 {
                    expected.push((x as i32 - center_1098, y as i32 - center_1098));
                }
            }
        }
        expected.sort();
        let mut actual = disc_offsets(r772);
        actual.sort();
        assert_eq!(actual, expected, "772 ring 0..={r772} must match 1098 setupArea({})", r1098);
    }
}
