//! Laws that tie the pool operations to one another.
//!
//! Each is stated over the outcome functions that the operations' contracts
//! are written in, so it holds of every call. The laws of a single
//! operation stand beside that operation.

use vstd::prelude::*;
use crate::account::AmmAccount;
use crate::deposit::{bootstrap_shares, deposit_outcome, lemma_bootstrap_issuance};
use crate::error::AmmError;
use crate::exchange::swap_outcome;
use crate::key::MintKey;
use crate::withdraw::{lemma_full_withdrawal_drains, withdraw_outcome};

verus! {

/// A zero amount is refused with `InvalidAmount` by every operation,
/// whatever the pool and the other arguments, and the pool stays as it was.
pub proof fn lemma_zero_amount_rejected(
    pool: AmmAccount,
    lp_supply: u64,
    token_inp: MintKey,
    other_amount: u64,
)
    ensures
        deposit_outcome(pool, lp_supply, 0, other_amount) == (
            pool,
            Err::<u64, AmmError>(AmmError::InvalidAmount),
        ),
        deposit_outcome(pool, lp_supply, other_amount, 0) == (
            pool,
            Err::<u64, AmmError>(AmmError::InvalidAmount),
        ),
        swap_outcome(pool, token_inp, 0) == (
            pool,
            Err::<u64, AmmError>(AmmError::InvalidAmount),
        ),
        withdraw_outcome(pool, lp_supply, 0) == (
            pool,
            Err::<(u64, u64), AmmError>(AmmError::InvalidAmount),
        ),
{
}

/// No operation ever refuses with `SlippageExceeded`.
pub proof fn lemma_slippage_never_raised(
    pool: AmmAccount,
    lp_supply: u64,
    token_inp: MintKey,
    amount1: u64,
    amount2: u64,
)
    ensures
        deposit_outcome(pool, lp_supply, amount1, amount2).1 != Err::<u64, AmmError>(
            AmmError::SlippageExceeded,
        ),
        swap_outcome(pool, token_inp, amount1).1 != Err::<u64, AmmError>(
            AmmError::SlippageExceeded,
        ),
        withdraw_outcome(pool, lp_supply, amount1).1 != Err::<(u64, u64), AmmError>(
            AmmError::SlippageExceeded,
        ),
{
}

/// Whoever makes the first deposit into an empty pool and then burns all
/// the shares it minted gets back exactly what was deposited, and the pool
/// is empty again.
pub proof fn lemma_bootstrap_round_trip(
    pool: AmmAccount,
    lp_supply: u64,
    amount1: u64,
    amount2: u64,
)
    requires
        pool.is_empty(),
        amount1 > 0,
        amount2 > 0,
    ensures
        0 < bootstrap_shares(amount1, amount2) <= u64::MAX,
        deposit_outcome(pool, lp_supply, amount1, amount2).1 == Ok::<u64, AmmError>(
            bootstrap_shares(amount1, amount2) as u64,
        ),
        withdraw_outcome(
            deposit_outcome(pool, lp_supply, amount1, amount2).0,
            bootstrap_shares(amount1, amount2) as u64,
            bootstrap_shares(amount1, amount2) as u64,
        ) == (pool, Ok::<(u64, u64), AmmError>((amount1, amount2))),
{
    lemma_bootstrap_issuance(pool, lp_supply, amount1, amount2);
    let minted = bootstrap_shares(amount1, amount2);
    if minted == 0 {
        assert(amount1 as nat * amount2 as nat >= 1) by (nonlinear_arith)
            requires
                amount1 >= 1,
                amount2 >= 1,
        ;
        assert((minted + 1) * (minted + 1) == 1) by (nonlinear_arith)
            requires
                minted == 0,
        ;
    }
    let funded = pool.with_reserves(amount1, amount2);
    lemma_full_withdrawal_drains(funded, minted as u64);
    assert(funded.with_reserves(0, 0) == pool);
}

} // verus!
