//! Adding liquidity: tokens in, pool shares out.

use vstd::prelude::*;
use crate::account::AmmAccount;
use crate::error::AmmError;
use crate::math::{
    floor_sqrt,
    integer_sqrt,
    is_floor_sqrt,
    lemma_floor_sqrt_exists,
    mul_div,
    mul_div_floor,
};

verus! {

/// Shares minted by the first deposit into an empty pool: the floor of the
/// geometric mean of the two amounts.
pub open spec fn bootstrap_shares(amount1: u64, amount2: u64) -> nat {
    floor_sqrt(amount1 as nat * amount2 as nat)
}

/// The amount of the second token that matches `amount1` of the first at
/// the pool's current ratio, rounded down.
pub open spec fn optimal_second_amount(pool: AmmAccount, amount1: u64) -> nat {
    mul_div_floor(pool.reserve_b as nat, amount1 as nat, pool.reserve_a as nat)
}

/// Shares minted by a deposit into a funded pool: the share supply grows by
/// the same fraction as the first reserve, rounded down.
pub open spec fn proportional_shares(pool: AmmAccount, lp_supply: u64, amount1: u64) -> nat {
    mul_div_floor(lp_supply as nat, amount1 as nat, pool.reserve_a as nat)
}

/// What a deposit of `amount1` and `amount2` does to `pool` while `lp_supply`
/// shares are outstanding: the pool afterwards, and the shares to mint or
/// the reason for refusal. A refused deposit leaves the pool as it was.
///
/// * Either amount zero: `InvalidAmount`.
/// * Empty pool: the deposit becomes the reserves and mints
///   `bootstrap_shares`.
/// * Otherwise the second amount must equal `optimal_second_amount`, else
///   `InvalidRatio`; the deposit mints `proportional_shares` and is added to
///   the reserves. `Overflow` when the first reserve is zero, or when the
///   optimal amount, the shares or a new reserve does not fit in 64 bits.
pub open spec fn deposit_outcome(
    pool: AmmAccount,
    lp_supply: u64,
    amount1: u64,
    amount2: u64,
) -> (AmmAccount, Result<u64, AmmError>) {
    let optimal = optimal_second_amount(pool, amount1);
    let minted = proportional_shares(pool, lp_supply, amount1);
    let new_a = pool.reserve_a + amount1;
    let new_b = pool.reserve_b + amount2;
    if amount1 == 0 || amount2 == 0 {
        (pool, Err(AmmError::InvalidAmount))
    } else if pool.is_empty() {
        (pool.with_reserves(amount1, amount2), Ok(bootstrap_shares(amount1, amount2) as u64))
    } else if pool.reserve_a == 0 || optimal > u64::MAX {
        (pool, Err(AmmError::Overflow))
    } else if amount2 != optimal {
        (pool, Err(AmmError::InvalidRatio))
    } else if minted > u64::MAX || new_a > u64::MAX || new_b > u64::MAX {
        (pool, Err(AmmError::Overflow))
    } else {
        (pool.with_reserves(new_a as u64, new_b as u64), Ok(minted as u64))
    }
}

/// The shares of a first deposit always fit in 64 bits.
pub proof fn lemma_bootstrap_shares_fit(amount1: u64, amount2: u64)
    ensures
        bootstrap_shares(amount1, amount2) <= u64::MAX,
{
    let n = amount1 as nat * amount2 as nat;
    let s = floor_sqrt(n);
    lemma_floor_sqrt_exists(n);
    assert(n <= u64::MAX * u64::MAX) by (nonlinear_arith)
        requires
            n == amount1 as nat * amount2 as nat,
            amount1 <= u64::MAX,
            amount2 <= u64::MAX,
    ;
    if s > u64::MAX {
        assert(s * s > u64::MAX * u64::MAX) by (nonlinear_arith)
            requires
                s > u64::MAX,
        ;
    }
}

/// The first deposit into an empty pool always succeeds. It mints the floor
/// of the square root of the product of the two amounts, and the amounts
/// become the reserves.
pub proof fn lemma_bootstrap_issuance(
    pool: AmmAccount,
    lp_supply: u64,
    amount1: u64,
    amount2: u64,
)
    requires
        pool.is_empty(),
        amount1 > 0,
        amount2 > 0,
    ensures
        deposit_outcome(pool, lp_supply, amount1, amount2).0 == pool.with_reserves(
            amount1,
            amount2,
        ),
        deposit_outcome(pool, lp_supply, amount1, amount2).1 == Ok::<u64, AmmError>(
            bootstrap_shares(amount1, amount2) as u64,
        ),
        bootstrap_shares(amount1, amount2) <= u64::MAX,
        is_floor_sqrt(amount1 as nat * amount2 as nat, bootstrap_shares(amount1, amount2)),
{
    lemma_bootstrap_shares_fit(amount1, amount2);
    lemma_floor_sqrt_exists(amount1 as nat * amount2 as nat);
}

/// The shares of a first deposit do not depend on which token is called
/// the first.
pub proof fn lemma_bootstrap_shares_symmetric(amount1: u64, amount2: u64)
    ensures
        bootstrap_shares(amount1, amount2) == bootstrap_shares(amount2, amount1),
{
    assert(amount1 as nat * amount2 as nat == amount2 as nat * amount1 as nat)
        by (nonlinear_arith);
}

/// A deposit into a funded pool is accepted only at the pool's exact ratio:
/// any other second amount is refused with `InvalidRatio`, and an accepted
/// deposit mints shares in proportion to the growth of the first reserve
/// and adds both amounts to the reserves.
pub proof fn lemma_proportional_deposit(
    pool: AmmAccount,
    lp_supply: u64,
    amount1: u64,
    amount2: u64,
)
    requires
        pool.reserve_a > 0,
        amount1 > 0,
        amount2 > 0,
        optimal_second_amount(pool, amount1) <= u64::MAX,
    ensures
        amount2 != optimal_second_amount(pool, amount1) ==> deposit_outcome(
            pool,
            lp_supply,
            amount1,
            amount2,
        ).1 == Err::<u64, AmmError>(AmmError::InvalidRatio),
        deposit_outcome(pool, lp_supply, amount1, amount2).1 is Ok ==> amount2
            == optimal_second_amount(pool, amount1),
        deposit_outcome(pool, lp_supply, amount1, amount2).1 is Ok ==> deposit_outcome(
            pool,
            lp_supply,
            amount1,
            amount2,
        ).1 == Ok::<u64, AmmError>(proportional_shares(pool, lp_supply, amount1) as u64),
        deposit_outcome(pool, lp_supply, amount1, amount2).1 is Ok ==> proportional_shares(
            pool,
            lp_supply,
            amount1,
        ) <= u64::MAX,
        deposit_outcome(pool, lp_supply, amount1, amount2).1 is Ok ==> deposit_outcome(
            pool,
            lp_supply,
            amount1,
            amount2,
        ).0.reserve_a == pool.reserve_a + amount1,
        deposit_outcome(pool, lp_supply, amount1, amount2).1 is Ok ==> deposit_outcome(
            pool,
            lp_supply,
            amount1,
            amount2,
        ).0.reserve_b == pool.reserve_b + amount2,
{
}

/// A deposit changes nothing but the reserves, a refused one not even
/// those, and after an accepted one the pool holds something of both
/// tokens.
pub proof fn lemma_deposit_funds_both_sides(
    pool: AmmAccount,
    lp_supply: u64,
    amount1: u64,
    amount2: u64,
)
    ensures
        deposit_outcome(pool, lp_supply, amount1, amount2).0.token_a == pool.token_a,
        deposit_outcome(pool, lp_supply, amount1, amount2).0.token_b == pool.token_b,
        deposit_outcome(pool, lp_supply, amount1, amount2).0.bump == pool.bump,
        deposit_outcome(pool, lp_supply, amount1, amount2).1 is Err ==> deposit_outcome(
            pool,
            lp_supply,
            amount1,
            amount2,
        ).0 == pool,
        deposit_outcome(pool, lp_supply, amount1, amount2).1 is Ok ==> deposit_outcome(
            pool,
            lp_supply,
            amount1,
            amount2,
        ).0.reserve_a > 0,
        deposit_outcome(pool, lp_supply, amount1, amount2).1 is Ok ==> deposit_outcome(
            pool,
            lp_supply,
            amount1,
            amount2,
        ).0.reserve_b > 0,
{
}

/// A deposit into a funded pool whose optimal second amount, share count or
/// new reserve does not fit in 64 bits is refused with `Overflow`, so an
/// accepted one has lost nothing in narrowing.
pub proof fn lemma_deposit_overflow_guard(
    pool: AmmAccount,
    lp_supply: u64,
    amount1: u64,
    amount2: u64,
)
    requires
        amount1 > 0,
        amount2 > 0,
        pool.reserve_a > 0,
    ensures
        optimal_second_amount(pool, amount1) > u64::MAX ==> deposit_outcome(
            pool,
            lp_supply,
            amount1,
            amount2,
        ).1 == Err::<u64, AmmError>(AmmError::Overflow),
        amount2 == optimal_second_amount(pool, amount1) && (proportional_shares(
            pool,
            lp_supply,
            amount1,
        ) > u64::MAX || pool.reserve_a + amount1 > u64::MAX || pool.reserve_b + amount2
            > u64::MAX) ==> deposit_outcome(pool, lp_supply, amount1, amount2).1 == Err::<
            u64,
            AmmError,
        >(AmmError::Overflow),
        deposit_outcome(pool, lp_supply, amount1, amount2).1 is Ok ==> optimal_second_amount(
            pool,
            amount1,
        ) <= u64::MAX && proportional_shares(pool, lp_supply, amount1) <= u64::MAX
            && pool.reserve_a + amount1 <= u64::MAX && pool.reserve_b + amount2 <= u64::MAX,
{
}

/// Deposits `amount1` of the first token and `amount2` of the second while
/// `lp_supply` shares are outstanding, and returns the shares to mint for
/// the depositor.
///
/// On success the reserves have grown by the two amounts. On refusal the
/// pool is as it was. `deposit_outcome` says which happens and with what
/// values.
pub fn addliquidity(amm: &mut AmmAccount, lp_supply: u64, amount1: u64, amount2: u64) -> (r: Result<
    u64,
    AmmError,
>)
    ensures
        *final(amm) == deposit_outcome(*old(amm), lp_supply, amount1, amount2).0,
        r == deposit_outcome(*old(amm), lp_supply, amount1, amount2).1,
        r is Err ==> *final(amm) == *old(amm),
        r is Ok ==> final(amm).reserve_a > 0 && final(amm).reserve_b > 0,
        old(amm).is_balanced() ==> final(amm).is_balanced(),
{
    if amount1 == 0 || amount2 == 0 {
        return Err(AmmError::InvalidAmount);
    }
    let liquidity_minted: u64;
    if amm.reserve_a == 0 && amm.reserve_b == 0 {
        proof {
            lemma_bootstrap_shares_fit(amount1, amount2);
            assert(amount1 * amount2 <= u64::MAX * u64::MAX) by (nonlinear_arith)
                requires
                    amount1 <= u64::MAX,
                    amount2 <= u64::MAX,
            ;
        }
        let product: u128 = match (amount1 as u128).checked_mul(amount2 as u128) {
            Some(p) => p,
            None => { return Err(AmmError::Overflow); },
        };
        let root: u128 = integer_sqrt(product);
        if root > u64::MAX as u128 {
            return Err(AmmError::Overflow);
        }
        liquidity_minted = root as u64;
        amm.reserve_a = amount1;
        amm.reserve_b = amount2;
    } else {
        let optimal_b: u64 = match mul_div(amm.reserve_b, amount1, amm.reserve_a) {
            Ok(v) => v,
            Err(e) => { return Err(e); },
        };
        if amount2 != optimal_b {
            return Err(AmmError::InvalidRatio);
        }
        let minted: u64 = match mul_div(lp_supply, amount1, amm.reserve_a) {
            Ok(v) => v,
            Err(e) => { return Err(e); },
        };
        let reserve_a: u64 = match amm.reserve_a.checked_add(amount1) {
            Some(v) => v,
            None => { return Err(AmmError::Overflow); },
        };
        let reserve_b: u64 = match amm.reserve_b.checked_add(amount2) {
            Some(v) => v,
            None => { return Err(AmmError::Overflow); },
        };
        liquidity_minted = minted;
        amm.reserve_a = reserve_a;
        amm.reserve_b = reserve_b;
    }
    Ok(liquidity_minted)
}

} // verus!
