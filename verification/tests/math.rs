use outbound::math::{integer_sqrt, step_length, strictly_nearer};

#[test]
fn integer_sqrt_of_small_numbers() {
    assert_eq!(integer_sqrt(0), 0);
    assert_eq!(integer_sqrt(1), 1);
    assert_eq!(integer_sqrt(2), 1);
    assert_eq!(integer_sqrt(3), 1);
    assert_eq!(integer_sqrt(4), 2);
    assert_eq!(integer_sqrt(8), 2);
    assert_eq!(integer_sqrt(9), 3);
    assert_eq!(integer_sqrt(24), 4);
    assert_eq!(integer_sqrt(25), 5);
    assert_eq!(integer_sqrt(26), 5);
}

#[test]
fn integer_sqrt_of_large_numbers() {
    assert_eq!(integer_sqrt(1_000_000), 1_000);
    assert_eq!(integer_sqrt(999_999), 999);
    assert_eq!(integer_sqrt(u64::MAX as u128), 4_294_967_295);
    assert_eq!(integer_sqrt(1u128 << 64), 1u64 << 32);
    assert_eq!(integer_sqrt(u128::MAX), u64::MAX);
    assert_eq!(integer_sqrt((u64::MAX as u128) * (u64::MAX as u128)), u64::MAX);
    assert_eq!(integer_sqrt((u64::MAX as u128) * (u64::MAX as u128) - 1), u64::MAX - 1);
}

#[test]
fn integer_sqrt_brackets_its_argument() {
    for n in 0u128..2_000 {
        let r = integer_sqrt(n) as u128;
        assert!(r * r <= n);
        assert!(n < (r + 1) * (r + 1));
    }
}

#[test]
fn step_length_is_rounded_down() {
    assert_eq!(step_length(0, 0), 0);
    assert_eq!(step_length(3, 4), 5);
    assert_eq!(step_length(-3, 4), 5);
    assert_eq!(step_length(-3, -4), 5);
    assert_eq!(step_length(1, 1), 1);
    assert_eq!(step_length(2, 2), 2);
    assert_eq!(step_length(0, -7), 7);
    assert_eq!(step_length(-25, -25), 35);
    assert_eq!(step_length(-150, -150), 212);
}

#[test]
fn step_length_of_the_longest_steps() {
    assert_eq!(step_length(i64::MIN, 0), 1u64 << 63);
    assert_eq!(step_length(i64::MAX, 0), i64::MAX as u64);
    // sqrt(2) * 2^63, rounded down
    assert_eq!(step_length(i64::MIN, i64::MIN), 13_043_817_825_332_782_212);
}

#[test]
fn strictly_nearer_compares_straight_line_distance() {
    assert!(strictly_nearer((1, 0), (1, 1), (0, 0)));
    assert!(!strictly_nearer((1, 1), (1, 0), (0, 0)));
    assert!(!strictly_nearer((3, 4), (5, 0), (0, 0)));
    assert!(!strictly_nearer((5, 0), (3, 4), (0, 0)));
    assert!(strictly_nearer((3, 4), (5, 1), (0, 0)));
    assert!(strictly_nearer((10, 10), (0, 0), (9, 9)));
    assert!(!strictly_nearer((2, 2), (2, 2), (7, -3)));
}

#[test]
fn strictly_nearer_is_exact_at_the_ends_of_the_range() {
    let far = (i64::MAX, i64::MAX);
    let from = (i64::MIN, i64::MIN);
    assert!(strictly_nearer((i64::MAX - 1, i64::MAX), far, from));
    assert!(!strictly_nearer(far, (i64::MAX - 1, i64::MAX), from));
    assert!(!strictly_nearer(far, far, from));
    assert!(strictly_nearer((0, 0), far, from));
    assert!(strictly_nearer((i64::MAX, i64::MIN), far, from));
    assert!(!strictly_nearer(far, (i64::MAX, i64::MIN), from));
    assert!(!strictly_nearer((i64::MAX, i64::MIN), (i64::MIN, i64::MAX), from));
}
