use vstd::prelude::*;
use vstd::arithmetic::div_mod::lemma_div_multiples_vanish;
use vstd::arithmetic::mul::lemma_mul_is_commutative;
use crate::error::ContractError;
use crate::math::checked_multiply_ratio;
use crate::math::integer_sqrt;
use crate::math::is_floor_sqrt;
use crate::math::ratio_outcome;

verus! {

/// The smaller of two amounts.
pub open spec fn smaller(a: u128, b: u128) -> u128 {
    if a <= b {
        a
    } else {
        b
    }
}

/// The shares minted for a deposit of `d0` and `d1` into reserves of `p0`
/// and `p1` that already have holders: each side is worth its part of the
/// outstanding shares, and the side that is worth less decides. The excess
/// of the other side stays in the pool.
pub open spec fn top_up_share(d0: u128, d1: u128, p0: u128, p1: u128, total_share: u128) -> Result<
    u128,
    ContractError,
> {
    match ratio_outcome(d0 as int, total_share as int, p0 as int) {
        Err(e) => Err(e),
        Ok(first) => match ratio_outcome(d1 as int, total_share as int, p1 as int) {
            Err(e) => Err(e),
            Ok(second) => Ok(smaller(first, second)),
        },
    }
}

/// `top_up_share` on the two deposits and the two reserves.
pub open spec fn top_up_outcome(deposits: [u128; 2], pools: [u128; 2], total_share: u128) -> Result<
    u128,
    ContractError,
> {
    top_up_share(deposits[0], deposits[1], pools[0], pools[1], total_share)
}

/// Whether `r` is what minting for a deposit gives. The first deposit into a
/// pool mints the integer square root of the product of its two sides; a
/// later one mints its `top_up_share`.
pub open spec fn is_minted_share(
    d0: u128,
    d1: u128,
    p0: u128,
    p1: u128,
    total_share: u128,
    r: Result<u128, ContractError>,
) -> bool {
    if total_share != 0 {
        r == top_up_share(d0, d1, p0, p1, total_share)
    } else if d0 * d1 > u128::MAX {
        r == Err::<u128, ContractError>(ContractError::Overflow)
    } else {
        r matches Ok(share) && is_floor_sqrt(d0 * d1, share as int)
    }
}

/// An integer has one integer square root.
pub proof fn lemma_floor_sqrt_unique(n: int, r: int, s: int)
    requires
        is_floor_sqrt(n, r),
        is_floor_sqrt(n, s),
    ensures
        r == s,
{
    if r < s {
        assert((r + 1) * (r + 1) <= s * s) by (nonlinear_arith)
            requires
                0 <= r,
                r + 1 <= s,
        ;
    } else if s < r {
        assert((s + 1) * (s + 1) <= r * r) by (nonlinear_arith)
            requires
                0 <= s,
                s + 1 <= r,
        ;
    }
}

/// The liquidity shares minted for `deposits`. `pools` are the reserves
/// before the deposit and `total_share` the shares outstanding. The first
/// deposit into a pool sets the rate: it mints the integer square root of the
/// product of its two sides.
pub fn provide_liquidity(deposits: &[u128; 2], pools: &[u128; 2], total_share: u128) -> (r: Result<
    u128,
    ContractError,
>)
    ensures
        total_share == 0 && deposits[0] * deposits[1] > u128::MAX ==> r == Err::<u128, ContractError>(
            ContractError::Overflow,
        ),
        total_share == 0 && deposits[0] * deposits[1] <= u128::MAX ==> (r matches Ok(share)
            && is_floor_sqrt(deposits[0] * deposits[1], share as int)),
        total_share != 0 ==> r == top_up_outcome(*deposits, *pools, total_share),
        is_minted_share(deposits[0], deposits[1], pools[0], pools[1], total_share, r),
{
    if total_share == 0 {
        let product: u128 = match deposits[0].checked_mul(deposits[1]) {
            Some(v) => v,
            None => { return Err(ContractError::Overflow); },
        };
        Ok(integer_sqrt(product))
    } else {
        let first: u128 = match checked_multiply_ratio(deposits[0], total_share, pools[0]) {
            Ok(v) => v,
            Err(e) => { return Err(e); },
        };
        let second: u128 = match checked_multiply_ratio(deposits[1], total_share, pools[1]) {
            Ok(v) => v,
            Err(e) => { return Err(e); },
        };
        if first <= second {
            Ok(first)
        } else {
            Ok(second)
        }
    }
}

/// What burning `burn_amount` of `total_share` shares releases from a
/// reserve of `pool`: the same part of the reserve, rounded down.
pub open spec fn refund_outcome(pool: u128, burn_amount: u128, total_share: u128) -> Result<
    u128,
    ContractError,
> {
    ratio_outcome(pool as int, burn_amount as int, total_share as int)
}

/// Burning every outstanding share releases the whole reserve.
pub proof fn lemma_full_withdrawal(pool: u128, total_share: u128)
    requires
        total_share > 0,
    ensures
        refund_outcome(pool, total_share, total_share) == Ok::<u128, ContractError>(pool),
{
    lemma_mul_is_commutative(pool as int, total_share as int);
    lemma_div_multiples_vanish(pool as int, total_share as int);
}

/// The two refunds for burning `burn_amount` of `total_share` shares against
/// the reserves `pools`, failures included.
pub open spec fn withdraw_liquidity_outcome(
    burn_amount: u128,
    total_share: u128,
    pools: [u128; 2],
) -> Result<(u128, u128), ContractError> {
    match refund_outcome(pools[0], burn_amount, total_share) {
        Err(e) => Err(e),
        Ok(first) => match refund_outcome(pools[1], burn_amount, total_share) {
            Err(e) => Err(e),
            Ok(second) => Ok((first, second)),
        },
    }
}

/// The two refunds for burning `burn_amount` of `total_share` shares against
/// the reserves `pools`.
pub fn withdraw_liquidity(burn_amount: u128, total_share: u128, pools: &[u128; 2]) -> (r: Result<
    [u128; 2],
    ContractError,
>)
    ensures
        match withdraw_liquidity_outcome(burn_amount, total_share, *pools) {
            Ok((first, second)) => (r matches Ok(refund) && refund[0] == first && refund[1]
                == second),
            Err(e) => r == Err::<[u128; 2], ContractError>(e),
        },
        burn_amount == total_share && total_share > 0 ==> (r matches Ok(refund) && refund[0]
            == pools[0] && refund[1] == pools[1]),
{
    proof {
        if burn_amount == total_share && total_share > 0 {
            lemma_full_withdrawal(pools[0], total_share);
            lemma_full_withdrawal(pools[1], total_share);
        }
    }
    let first: u128 = match checked_multiply_ratio(pools[0], burn_amount, total_share) {
        Ok(v) => v,
        Err(e) => { return Err(e); },
    };
    let second: u128 = match checked_multiply_ratio(pools[1], burn_amount, total_share) {
        Ok(v) => v,
        Err(e) => { return Err(e); },
    };
    Ok([first, second])
}

} // verus!
