//! Swapping one of the pool's tokens for the other.

use vstd::prelude::*;
use crate::account::AmmAccount;
use crate::error::AmmError;
use crate::key::MintKey;
use crate::math::{
    lemma_mul_div_floor_brackets,
    lemma_mul_div_floor_scales,
    mul_div,
    mul_div_floor,
};

verus! {

/// The reserve that a swap of `token_inp` adds to: the first when
/// `token_inp` is the pool's first mint, else the second.
pub open spec fn reserve_in(pool: AmmAccount, token_inp: MintKey) -> u64 {
    if token_inp == pool.token_a {
        pool.reserve_a
    } else {
        pool.reserve_b
    }
}

/// The reserve that a swap of `token_inp` pays from: the other one.
pub open spec fn reserve_out(pool: AmmAccount, token_inp: MintKey) -> u64 {
    if token_inp == pool.token_a {
        pool.reserve_b
    } else {
        pool.reserve_a
    }
}

/// What a swap pays out: the share of the output reserve that `amount_in`
/// makes up of the input reserve once it has been added, rounded down. No
/// fee is taken.
pub open spec fn swap_output(pool: AmmAccount, token_inp: MintKey, amount_in: u64) -> nat {
    mul_div_floor(
        reserve_out(pool, token_inp) as nat,
        amount_in as nat,
        (reserve_in(pool, token_inp) + amount_in) as nat,
    )
}

/// What selling `amount_in` of the token `token_inp` does to `pool`: the
/// pool afterwards, and the amount of the other token to pay out or the
/// reason for refusal. A refused swap leaves the pool as it was.
///
/// * Zero amount: `InvalidAmount`.
/// * A token that is neither of the pool's two: `InvalidToken`.
/// * `Overflow` when the input reserve would leave the 64-bit range.
/// * Otherwise the payout is `swap_output` of the reserves before the swap;
///   the input reserve grows by `amount_in` and the other shrinks by the
///   payout.
pub open spec fn swap_outcome(pool: AmmAccount, token_inp: MintKey, amount_in: u64) -> (
    AmmAccount,
    Result<u64, AmmError>,
) {
    let amount_out = swap_output(pool, token_inp, amount_in);
    let new_in = reserve_in(pool, token_inp) + amount_in;
    let new_out = reserve_out(pool, token_inp) - amount_out;
    if amount_in == 0 {
        (pool, Err(AmmError::InvalidAmount))
    } else if token_inp != pool.token_a && token_inp != pool.token_b {
        (pool, Err(AmmError::InvalidToken))
    } else if new_in > u64::MAX {
        (pool, Err(AmmError::Overflow))
    } else if token_inp == pool.token_a {
        (pool.with_reserves(new_in as u64, new_out as u64), Ok(amount_out as u64))
    } else {
        (pool.with_reserves(new_out as u64, new_in as u64), Ok(amount_out as u64))
    }
}

/// A swap never pays out more than the output reserve holds, and the payout
/// times the new input reserve is at most the old output reserve times the
/// amount paid in.
pub proof fn lemma_swap_output_bounded(pool: AmmAccount, token_inp: MintKey, amount_in: u64)
    requires
        amount_in > 0,
    ensures
        swap_output(pool, token_inp, amount_in) <= reserve_out(pool, token_inp),
        swap_output(pool, token_inp, amount_in) * (reserve_in(pool, token_inp) + amount_in)
            <= reserve_out(pool, token_inp) * amount_in,
{
    let d = (reserve_in(pool, token_inp) + amount_in) as nat;
    let x = reserve_out(pool, token_inp) as nat;
    lemma_mul_div_floor_scales(x, amount_in as nat, d);
    lemma_mul_div_floor_brackets(x, amount_in as nat, d);
}

/// A swap never lowers the product of the two reserves.
pub proof fn lemma_swap_product_non_decreasing(
    pool: AmmAccount,
    token_inp: MintKey,
    amount_in: u64,
)
    ensures
        swap_outcome(pool, token_inp, amount_in).0.product() >= pool.product(),
{
    if swap_outcome(pool, token_inp, amount_in).1 is Ok {
        let after = swap_outcome(pool, token_inp, amount_in).0;
        let r_in = reserve_in(pool, token_inp) as nat;
        let r_out = reserve_out(pool, token_inp) as nat;
        let a = amount_in as nat;
        let out = swap_output(pool, token_inp, amount_in);
        lemma_swap_output_bounded(pool, token_inp, amount_in);
        let new_in = r_in + a;
        let new_out = (r_out - out) as nat;
        assert(new_in * new_out >= r_in * r_out) by (nonlinear_arith)
            requires
                new_in == r_in + a,
                new_out == r_out - out,
                out * (r_in + a) <= r_out * a,
        ;
        if token_inp == pool.token_a {
            assert(after.product() == new_in * new_out);
            assert(pool.product() == r_in * r_out);
        } else {
            assert(after.product() == new_out * new_in);
            assert(pool.product() == r_out * r_in);
            assert(new_out * new_in == new_in * new_out) by (nonlinear_arith);
            assert(r_out * r_in == r_in * r_out) by (nonlinear_arith);
        }
    }
}

/// A swap of a positive amount of a token that is neither of the pool's two
/// is refused with `InvalidToken`, whatever the amount.
pub proof fn lemma_swap_rejects_foreign_token(pool: AmmAccount, token_inp: MintKey, amount_in: u64)
    requires
        token_inp != pool.token_a,
        token_inp != pool.token_b,
        amount_in > 0,
    ensures
        swap_outcome(pool, token_inp, amount_in) == (
            pool,
            Err::<u64, AmmError>(AmmError::InvalidToken),
        ),
{
}

/// A swap changes nothing but the reserves, and a refused one not even
/// those. An accepted one pays out `swap_output`, adds the amount paid in
/// to the input reserve and takes the payout from the other.
pub proof fn lemma_swap_moves_both_amounts(pool: AmmAccount, token_inp: MintKey, amount_in: u64)
    ensures
        swap_outcome(pool, token_inp, amount_in).0.token_a == pool.token_a,
        swap_outcome(pool, token_inp, amount_in).0.token_b == pool.token_b,
        swap_outcome(pool, token_inp, amount_in).0.bump == pool.bump,
        swap_outcome(pool, token_inp, amount_in).1 is Err ==> swap_outcome(
            pool,
            token_inp,
            amount_in,
        ).0 == pool,
        swap_outcome(pool, token_inp, amount_in).1 is Ok ==> swap_outcome(
            pool,
            token_inp,
            amount_in,
        ).1 == Ok::<u64, AmmError>(swap_output(pool, token_inp, amount_in) as u64),
        swap_outcome(pool, token_inp, amount_in).1 is Ok ==> swap_output(
            pool,
            token_inp,
            amount_in,
        ) <= reserve_out(pool, token_inp),
        swap_outcome(pool, token_inp, amount_in).1 is Ok ==> reserve_in(
            swap_outcome(pool, token_inp, amount_in).0,
            token_inp,
        ) == reserve_in(pool, token_inp) + amount_in,
        swap_outcome(pool, token_inp, amount_in).1 is Ok ==> reserve_out(
            swap_outcome(pool, token_inp, amount_in).0,
            token_inp,
        ) == reserve_out(pool, token_inp) - swap_output(pool, token_inp, amount_in),
{
    if swap_outcome(pool, token_inp, amount_in).1 is Ok {
        lemma_swap_output_bounded(pool, token_inp, amount_in);
    }
}

/// A swap against a pool that holds something of both tokens leaves it
/// holding something of both.
pub proof fn lemma_swap_keeps_both_sides_funded(
    pool: AmmAccount,
    token_inp: MintKey,
    amount_in: u64,
)
    requires
        pool.reserve_a > 0,
        pool.reserve_b > 0,
    ensures
        swap_outcome(pool, token_inp, amount_in).0.reserve_a > 0,
        swap_outcome(pool, token_inp, amount_in).0.reserve_b > 0,
{
    if swap_outcome(pool, token_inp, amount_in).1 is Ok {
        lemma_mul_div_floor_scales(
            reserve_out(pool, token_inp) as nat,
            amount_in as nat,
            (reserve_in(pool, token_inp) + amount_in) as nat,
        );
    }
}

/// A swap of one of the pool's tokens is refused with `Overflow` exactly
/// when the input reserve would leave the 64-bit range. The payout itself
/// always fits: it is at most the output reserve.
pub proof fn lemma_swap_overflow_guard(pool: AmmAccount, token_inp: MintKey, amount_in: u64)
    requires
        amount_in > 0,
        token_inp == pool.token_a || token_inp == pool.token_b,
    ensures
        swap_output(pool, token_inp, amount_in) <= u64::MAX,
        reserve_in(pool, token_inp) + amount_in > u64::MAX ==> swap_outcome(
            pool,
            token_inp,
            amount_in,
        ) == (pool, Err::<u64, AmmError>(AmmError::Overflow)),
        reserve_in(pool, token_inp) + amount_in <= u64::MAX ==> swap_outcome(
            pool,
            token_inp,
            amount_in,
        ).1 is Ok,
{
    lemma_swap_output_bounded(pool, token_inp, amount_in);
}

/// Sells `amount_token_inp` of the token `token_inp` to the pool and returns
/// the amount of the other token to pay out.
///
/// The payout is priced on the reserves as they stand before the call. On
/// success the reserves have moved by the two amounts. On refusal the pool
/// is as it was. `swap_outcome` says which happens and with what values.
pub fn swap(amm: &mut AmmAccount, token_inp: MintKey, amount_token_inp: u64) -> (r: Result<
    u64,
    AmmError,
>)
    ensures
        *final(amm) == swap_outcome(*old(amm), token_inp, amount_token_inp).0,
        r == swap_outcome(*old(amm), token_inp, amount_token_inp).1,
        r is Err ==> *final(amm) == *old(amm),
        final(amm).product() >= old(amm).product(),
        old(amm).reserve_a > 0 && old(amm).reserve_b > 0 ==> final(amm).reserve_a > 0
            && final(amm).reserve_b > 0,
{
    proof {
        lemma_swap_product_non_decreasing(*amm, token_inp, amount_token_inp);
        if amm.reserve_a > 0 && amm.reserve_b > 0 {
            lemma_swap_keeps_both_sides_funded(*amm, token_inp, amount_token_inp);
        }
    }
    if amount_token_inp == 0 {
        return Err(AmmError::InvalidAmount);
    }
    let a_in: bool = token_inp == amm.token_a;
    if !a_in && token_inp != amm.token_b {
        return Err(AmmError::InvalidToken);
    }
    let (reserve_in, reserve_out): (u64, u64) = if a_in {
        (amm.reserve_a, amm.reserve_b)
    } else {
        (amm.reserve_b, amm.reserve_a)
    };
    let new_in: u64 = match reserve_in.checked_add(amount_token_inp) {
        Some(v) => v,
        None => { return Err(AmmError::Overflow); },
    };
    proof {
        lemma_swap_output_bounded(*amm, token_inp, amount_token_inp);
    }
    let amount_out: u64 = match mul_div(reserve_out, amount_token_inp, new_in) {
        Ok(v) => v,
        Err(e) => { return Err(e); },
    };
    let new_out: u64 = match reserve_out.checked_sub(amount_out) {
        Some(v) => v,
        None => { return Err(AmmError::Overflow); },
    };
    if a_in {
        amm.reserve_a = new_in;
        amm.reserve_b = new_out;
    } else {
        amm.reserve_a = new_out;
        amm.reserve_b = new_in;
    }
    Ok(amount_out)
}

} // verus!
