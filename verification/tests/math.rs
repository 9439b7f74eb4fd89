use amm_contract::{integer_sqrt, mul_div, AmmError};

#[test]
fn integer_sqrt_of_small_numbers() {
    let expected: [(u128, u128); 12] = [
        (0, 0),
        (1, 1),
        (2, 1),
        (3, 1),
        (4, 2),
        (8, 2),
        (9, 3),
        (15, 3),
        (16, 4),
        (17, 4),
        (24, 4),
        (25, 5),
    ];
    for (n, root) in expected {
        assert_eq!(integer_sqrt(n), root, "floor sqrt of {}", n);
    }
}

#[test]
fn integer_sqrt_of_perfect_squares_and_neighbours() {
    let roots: [u128; 10] = [
        1,
        2,
        3,
        10,
        200,
        65_535,
        65_536,
        4_294_967_295,
        4_294_967_296,
        10_000_000_000_000_000_000,
    ];
    for r in roots {
        let square = r * r;
        assert_eq!(integer_sqrt(square), r);
        assert_eq!(integer_sqrt(square - 1), r - 1);
        assert_eq!(integer_sqrt(square + 1), r);
    }
}

#[test]
fn integer_sqrt_of_forty_thousand_is_two_hundred() {
    assert_eq!(integer_sqrt(40_000), 200);
}

#[test]
fn integer_sqrt_at_the_top_of_the_range() {
    let max64 = u64::MAX as u128;
    assert_eq!(integer_sqrt(u128::MAX), max64);
    assert_eq!(integer_sqrt(u128::MAX - 1), max64);
    assert_eq!(integer_sqrt(max64 * max64), max64);
    assert_eq!(integer_sqrt(max64 * max64 - 1), max64 - 1);
    assert_eq!(integer_sqrt(1u128 << 127), 13_043_817_825_332_782_212);
}

#[test]
fn integer_sqrt_brackets_its_argument() {
    let mut n: u128 = 1;
    for _ in 0..120 {
        let r = integer_sqrt(n);
        assert!(r * r <= n);
        assert!(n < (r + 1) * (r + 1));
        n = n * 2 + 1;
    }
}

#[test]
fn mul_div_rounds_down() {
    assert_eq!(mul_div(6, 7, 4), Ok(10));
    assert_eq!(mul_div(1000, 100, 1100), Ok(90));
    assert_eq!(mul_div(1, 1, 2), Ok(0));
    assert_eq!(mul_div(0, 0, 5), Ok(0));
    assert_eq!(mul_div(400, 50, 100), Ok(200));
}

#[test]
fn mul_div_keeps_the_high_bits_of_the_product() {
    assert_eq!(mul_div(u64::MAX, u64::MAX, u64::MAX), Ok(u64::MAX));
    assert_eq!(mul_div(u64::MAX, 50, 100), Ok(u64::MAX / 2));
    assert_eq!(mul_div(1 << 63, 4, 8), Ok(1 << 62));
}

#[test]
fn mul_div_refuses_a_zero_divisor() {
    assert_eq!(mul_div(1, 1, 0), Err(AmmError::Overflow));
    assert_eq!(mul_div(0, 0, 0), Err(AmmError::Overflow));
}

#[test]
fn mul_div_refuses_a_quotient_beyond_64_bits() {
    assert_eq!(mul_div(u64::MAX, u64::MAX, 1), Err(AmmError::Overflow));
    assert_eq!(mul_div(u64::MAX, 2, 1), Err(AmmError::Overflow));
    assert_eq!(mul_div(1 << 63, 2, 1), Err(AmmError::Overflow));
    assert_eq!(mul_div(u64::MAX, 1, 1), Ok(u64::MAX));
}
