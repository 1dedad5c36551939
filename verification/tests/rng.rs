use tfs_core::combat::rng::average_toward_zero;
use tfs_core::combat::rng::{normal_random, triangular_random, uniform_random};

#[test]
fn equal_bounds_give_the_bound() {
    let mut rng = rand::thread_rng();
    assert_eq!(uniform_random(&mut rng, 5, 5), 5);
    assert_eq!(normal_random(&mut rng, -3, -3), -3);
    assert_eq!(triangular_random(&mut rng, 9, 9), 9);
}

#[test]
fn rolls_stay_within_bounds_in_either_order() {
    let mut rng = rand::thread_rng();
    let mut seen_low = false;
    let mut seen_high = false;
    for _ in 0..2000 {
        let v = uniform_random(&mut rng, 10, 1);
        assert!((1..=10).contains(&v));
        seen_low |= v == 1;
        seen_high |= v == 10;
        let t = triangular_random(&mut rng, -20, 20);
        assert!((-20..=20).contains(&t));
        let n = normal_random(&mut rng, 0, 3);
        assert!((0..=3).contains(&n));
    }
    assert!(seen_low && seen_high, "both ends of the range should come up");
}

#[test]
fn average_rounds_toward_zero_over_the_whole_range() {
    assert_eq!(average_toward_zero(3, 4), 3);
    assert_eq!(average_toward_zero(-3, -4), -3);
    assert_eq!(average_toward_zero(-3, 4), 0);
    assert_eq!(average_toward_zero(i32::MAX, i32::MAX), i32::MAX);
    assert_eq!(average_toward_zero(i32::MIN, i32::MIN), i32::MIN);
    assert_eq!(average_toward_zero(i32::MIN, i32::MAX), 0);
    let mut rng = rand::thread_rng();
    for _ in 0..200 {
        let t = triangular_random(&mut rng, i32::MIN, i32::MAX);
        let _ = t;
    }
}
