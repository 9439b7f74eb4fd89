//! Removing liquidity: pool shares in, tokens out.

use vstd::prelude::*;
use crate::account::AmmAccount;
use crate::error::AmmError;
use crate::math::{lemma_mul_div_floor_scales, mul_div, mul_div_floor};

verus! {

/// The part of `reserve` owed to `lp_amount` shares out of `lp_supply`,
/// rounded down.
pub open spec fn withdrawal_amount(reserve: u64, lp_amount: u64, lp_supply: u64) -> nat {
    mul_div_floor(reserve as nat, lp_amount as nat, lp_supply as nat)
}

/// What burning `lp_amount` shares out of `lp_supply` does to `pool`: the
/// pool afterwards, and the amounts of the first and second token to pay
/// out or the reason for refusal. A refused withdrawal leaves the pool as
/// it was.
///
/// * Zero shares: `InvalidAmount`.
/// * `Overflow` when the supply is zero, or when either amount is more than
///   its reserve holds (which covers every amount too large for 64 bits).
/// * Otherwise each amount is `withdrawal_amount` of its reserve, and the
///   reserves shrink by the amounts.
pub open spec fn withdraw_outcome(pool: AmmAccount, lp_supply: u64, lp_amount: u64) -> (
    AmmAccount,
    Result<(u64, u64), AmmError>,
) {
    let amount_a = withdrawal_amount(pool.reserve_a, lp_amount, lp_supply);
    let amount_b = withdrawal_amount(pool.reserve_b, lp_amount, lp_supply);
    let new_a = pool.reserve_a - amount_a;
    let new_b = pool.reserve_b - amount_b;
    if lp_amount == 0 {
        (pool, Err(AmmError::InvalidAmount))
    } else if lp_supply == 0 || amount_a > pool.reserve_a || amount_b > pool.reserve_b {
        (pool, Err(AmmError::Overflow))
    } else {
        (pool.with_reserves(new_a as u64, new_b as u64), Ok((amount_a as u64, amount_b as u64)))
    }
}

/// Burning the whole share supply pays out both reserves in full and leaves
/// the pool empty.
pub proof fn lemma_full_withdrawal_drains(pool: AmmAccount, lp_supply: u64)
    requires
        lp_supply > 0,
    ensures
        withdraw_outcome(pool, lp_supply, lp_supply) == (
            pool.with_reserves(0, 0),
            Ok::<(u64, u64), AmmError>((pool.reserve_a, pool.reserve_b)),
        ),
{
    lemma_mul_div_floor_scales(pool.reserve_a as nat, lp_supply as nat, lp_supply as nat);
    lemma_mul_div_floor_scales(pool.reserve_b as nat, lp_supply as nat, lp_supply as nat);
}

/// Burning no more than the share supply always succeeds, and pays out of
/// each reserve its proportional part, which is never more than the
/// reserve.
pub proof fn lemma_withdrawal_proportional(pool: AmmAccount, lp_supply: u64, lp_amount: u64)
    requires
        0 < lp_amount <= lp_supply,
    ensures
        withdrawal_amount(pool.reserve_a, lp_amount, lp_supply) <= pool.reserve_a,
        withdrawal_amount(pool.reserve_b, lp_amount, lp_supply) <= pool.reserve_b,
        withdraw_outcome(pool, lp_supply, lp_amount).1 == Ok::<(u64, u64), AmmError>(
            (
                withdrawal_amount(pool.reserve_a, lp_amount, lp_supply) as u64,
                withdrawal_amount(pool.reserve_b, lp_amount, lp_supply) as u64,
            ),
        ),
        withdraw_outcome(pool, lp_supply, lp_amount).0 == pool.with_reserves(
            (pool.reserve_a - withdrawal_amount(pool.reserve_a, lp_amount, lp_supply)) as u64,
            (pool.reserve_b - withdrawal_amount(pool.reserve_b, lp_amount, lp_supply)) as u64,
        ),
{
    lemma_mul_div_floor_scales(pool.reserve_a as nat, lp_amount as nat, lp_supply as nat);
    lemma_mul_div_floor_scales(pool.reserve_b as nat, lp_amount as nat, lp_supply as nat);
}

/// A withdrawal changes nothing but the reserves, a refused one not even
/// those, and an accepted one takes from each reserve exactly what it pays
/// out.
pub proof fn lemma_withdrawal_moves_both_amounts(
    pool: AmmAccount,
    lp_supply: u64,
    lp_amount: u64,
)
    ensures
        withdraw_outcome(pool, lp_supply, lp_amount).0.token_a == pool.token_a,
        withdraw_outcome(pool, lp_supply, lp_amount).0.token_b == pool.token_b,
        withdraw_outcome(pool, lp_supply, lp_amount).0.bump == pool.bump,
        withdraw_outcome(pool, lp_supply, lp_amount).1 is Err ==> withdraw_outcome(
            pool,
            lp_supply,
            lp_amount,
        ).0 == pool,
        withdraw_outcome(pool, lp_supply, lp_amount).1 matches Ok(amounts) ==> amounts.0
            == withdrawal_amount(pool.reserve_a, lp_amount, lp_supply) && amounts.1
            == withdrawal_amount(pool.reserve_b, lp_amount, lp_supply),
        withdraw_outcome(pool, lp_supply, lp_amount).1 matches Ok(amounts) ==> withdraw_outcome(
            pool,
            lp_supply,
            lp_amount,
        ).0.reserve_a == pool.reserve_a - amounts.0 && withdraw_outcome(
            pool,
            lp_supply,
            lp_amount,
        ).0.reserve_b == pool.reserve_b - amounts.1,
{
}

/// A withdrawal from a pool that holds either nothing or something of both
/// tokens leaves it so.
pub proof fn lemma_withdrawal_keeps_balance(pool: AmmAccount, lp_supply: u64, lp_amount: u64)
    requires
        pool.is_balanced(),
    ensures
        withdraw_outcome(pool, lp_supply, lp_amount).0.is_balanced(),
{
    if withdraw_outcome(pool, lp_supply, lp_amount).1 is Ok {
        lemma_mul_div_floor_scales(pool.reserve_a as nat, lp_amount as nat, lp_supply as nat);
        lemma_mul_div_floor_scales(pool.reserve_b as nat, lp_amount as nat, lp_supply as nat);
    }
}

/// A withdrawal against a zero supply, or one whose amount of either token
/// does not fit in 64 bits or is more than the reserve holds, is refused
/// with `Overflow`.
pub proof fn lemma_withdrawal_overflow_guard(pool: AmmAccount, lp_supply: u64, lp_amount: u64)
    requires
        lp_amount > 0,
    ensures
        lp_supply == 0 ==> withdraw_outcome(pool, lp_supply, lp_amount) == (
            pool,
            Err::<(u64, u64), AmmError>(AmmError::Overflow),
        ),
        withdrawal_amount(pool.reserve_a, lp_amount, lp_supply) > u64::MAX || withdrawal_amount(
            pool.reserve_b,
            lp_amount,
            lp_supply,
        ) > u64::MAX ==> withdraw_outcome(pool, lp_supply, lp_amount) == (
            pool,
            Err::<(u64, u64), AmmError>(AmmError::Overflow),
        ),
        withdrawal_amount(pool.reserve_a, lp_amount, lp_supply) > pool.reserve_a
            || withdrawal_amount(pool.reserve_b, lp_amount, lp_supply) > pool.reserve_b
            ==> withdraw_outcome(pool, lp_supply, lp_amount) == (
            pool,
            Err::<(u64, u64), AmmError>(AmmError::Overflow),
        ),
{
}

/// Burns `lp_amount` shares while `lp_supply` are outstanding and returns
/// the amounts of the first and second token to pay out.
///
/// On success the reserves have shrunk by the two amounts. On refusal the
/// pool is as it was. `withdraw_outcome` says which happens and with what
/// values.
pub fn removeliquidity(amm: &mut AmmAccount, lp_supply: u64, lp_amount: u64) -> (r: Result<
    (u64, u64),
    AmmError,
>)
    ensures
        *final(amm) == withdraw_outcome(*old(amm), lp_supply, lp_amount).0,
        r == withdraw_outcome(*old(amm), lp_supply, lp_amount).1,
        r is Err ==> *final(amm) == *old(amm),
        old(amm).is_balanced() ==> final(amm).is_balanced(),
{
    proof {
        if amm.is_balanced() {
            lemma_withdrawal_keeps_balance(*amm, lp_supply, lp_amount);
        }
    }
    if lp_amount == 0 {
        return Err(AmmError::InvalidAmount);
    }
    let amount_a: u64 = match mul_div(amm.reserve_a, lp_amount, lp_supply) {
        Ok(v) => v,
        Err(e) => { return Err(e); },
    };
    let amount_b: u64 = match mul_div(amm.reserve_b, lp_amount, lp_supply) {
        Ok(v) => v,
        Err(e) => { return Err(e); },
    };
    let reserve_a: u64 = match amm.reserve_a.checked_sub(amount_a) {
        Some(v) => v,
        None => { return Err(AmmError::Overflow); },
    };
    let reserve_b: u64 = match amm.reserve_b.checked_sub(amount_b) {
        Some(v) => v,
        None => { return Err(AmmError::Overflow); },
    };
    amm.reserve_a = reserve_a;
    amm.reserve_b = reserve_b;
    Ok((amount_a, amount_b))
}

} // verus!
