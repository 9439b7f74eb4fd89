use amm_contract::{addliquidity, initialize, AmmAccount, AmmError, MintKey};

fn key(tag: u8) -> MintKey {
    MintKey::new([tag; 32])
}

fn pool(reserve_a: u64, reserve_b: u64) -> AmmAccount {
    AmmAccount { token_a: key(1), token_b: key(2), reserve_a, reserve_b, bump: 9 }
}

#[test]
fn first_deposit_mints_the_root_of_the_product() {
    let mut amm = initialize(key(1), key(2), 9);
    assert_eq!(addliquidity(&mut amm, 0, 100, 400), Ok(200));
    assert_eq!(amm, pool(100, 400));
}

#[test]
fn first_deposit_rounds_the_root_down() {
    let cases: [(u64, u64, u64); 7] = [
        (1, 1, 1),
        (2, 1, 1),
        (2, 3, 2),
        (3, 3, 3),
        (10, 1000, 100),
        (7, 11, 8),
        (1, u64::MAX, 4_294_967_295),
    ];
    for (amount1, amount2, shares) in cases {
        let mut amm = pool(0, 0);
        assert_eq!(addliquidity(&mut amm, 0, amount1, amount2), Ok(shares));
        assert_eq!(amm, pool(amount1, amount2));
    }
}

#[test]
fn first_deposit_is_symmetric_in_the_two_tokens() {
    for (x, y) in [(100u64, 400u64), (2, 3), (1, u64::MAX), (123_456_789, 987_654_321)] {
        let mut one = pool(0, 0);
        let mut other = pool(0, 0);
        assert_eq!(addliquidity(&mut one, 0, x, y), addliquidity(&mut other, 0, y, x));
    }
}

#[test]
fn first_deposit_of_the_largest_amounts_fits() {
    let mut amm = pool(0, 0);
    assert_eq!(addliquidity(&mut amm, 0, u64::MAX, u64::MAX), Ok(u64::MAX));
    assert_eq!(amm, pool(u64::MAX, u64::MAX));
}

#[test]
fn first_deposit_ignores_the_share_supply() {
    let mut amm = pool(0, 0);
    assert_eq!(addliquidity(&mut amm, 12_345, 100, 400), Ok(200));
    assert_eq!(amm, pool(100, 400));
}

#[test]
fn later_deposit_must_match_the_ratio() {
    for supply in [0u64, 1, 200, 201, u64::MAX] {
        let mut amm = pool(100, 400);
        assert_eq!(addliquidity(&mut amm, supply, 50, 200), Ok(supply / 2));
        assert_eq!(amm, pool(150, 600));
        for wrong in [1u64, 199, 201, 400, u64::MAX] {
            let mut amm = pool(100, 400);
            assert_eq!(addliquidity(&mut amm, supply, 50, wrong), Err(AmmError::InvalidRatio));
            assert_eq!(amm, pool(100, 400));
        }
    }
}

#[test]
fn later_deposit_mints_in_proportion_rounded_down() {
    let mut amm = pool(100, 400);
    assert_eq!(addliquidity(&mut amm, 200, 50, 200), Ok(100));
    let mut amm = pool(3, 7);
    // optimal second amount: floor(7 * 2 / 3) = 4; shares: floor(10 * 2 / 3) = 6
    assert_eq!(addliquidity(&mut amm, 10, 2, 4), Ok(6));
    assert_eq!(amm, pool(5, 11));
}

#[test]
fn deposit_of_a_zero_amount_is_refused() {
    for start in [pool(0, 0), pool(100, 400), pool(5, 0), pool(0, 5)] {
        for (amount1, amount2) in [(0u64, 0u64), (0, 7), (7, 0), (0, u64::MAX), (u64::MAX, 0)] {
            let mut amm = start;
            assert_eq!(addliquidity(&mut amm, 3, amount1, amount2), Err(AmmError::InvalidAmount));
            assert_eq!(amm, start);
        }
    }
}

#[test]
fn deposit_whose_optimal_amount_overflows_is_refused() {
    let mut amm = pool(1, u64::MAX);
    assert_eq!(addliquidity(&mut amm, 1, 2, 5), Err(AmmError::Overflow));
    assert_eq!(amm, pool(1, u64::MAX));
}

#[test]
fn deposit_whose_shares_overflow_is_refused() {
    let mut amm = pool(1, 1);
    assert_eq!(addliquidity(&mut amm, u64::MAX, 2, 2), Err(AmmError::Overflow));
    assert_eq!(amm, pool(1, 1));
}

#[test]
fn deposit_that_overflows_a_reserve_is_refused() {
    let mut amm = pool(u64::MAX, u64::MAX);
    assert_eq!(addliquidity(&mut amm, 1, 1, 1), Err(AmmError::Overflow));
    assert_eq!(amm, pool(u64::MAX, u64::MAX));

    let mut amm = pool(2, u64::MAX - 1);
    // optimal second amount: floor((2^64 - 2) * 1 / 2) = 2^63 - 1
    assert_eq!(addliquidity(&mut amm, 0, 1, (1 << 63) - 1), Err(AmmError::Overflow));
    assert_eq!(amm, pool(2, u64::MAX - 1));
}

#[test]
fn deposit_into_a_pool_without_first_reserve_is_refused() {
    let mut amm = pool(0, 5);
    assert_eq!(addliquidity(&mut amm, 1, 1, 1), Err(AmmError::Overflow));
    assert_eq!(amm, pool(0, 5));
}

#[test]
fn deposit_into_a_pool_without_second_reserve_never_matches() {
    let mut amm = pool(5, 0);
    assert_eq!(addliquidity(&mut amm, 1, 1, 1), Err(AmmError::InvalidRatio));
    assert_eq!(amm, pool(5, 0));
}

#[test]
fn deposit_keeps_mints_and_bump() {
    let mut amm =
        AmmAccount { token_a: key(7), token_b: key(8), reserve_a: 10, reserve_b: 20, bump: 3 };
    assert_eq!(addliquidity(&mut amm, 100, 5, 10), Ok(50));
    assert_eq!(
        amm,
        AmmAccount { token_a: key(7), token_b: key(8), reserve_a: 15, reserve_b: 30, bump: 3 }
    );
}
