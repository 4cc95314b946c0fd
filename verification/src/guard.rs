use vstd::prelude::*;
use vstd::arithmetic::div_mod::lemma_div_is_ordered;
use vstd::arithmetic::div_mod::lemma_div_multiples_vanish;
use vstd::arithmetic::div_mod::lemma_div_pos_is_pos;
use vstd::arithmetic::mul::lemma_mul_inequality;
use vstd::arithmetic::mul::lemma_mul_nonnegative;
use crate::decimal::unit;
use crate::decimal::Decimal;
use crate::error::ContractError;
use crate::math::checked_from_ratio;
use crate::math::checked_mul_floor;
use crate::math::decimal_multiplication;
use crate::math::decimal_multiplication_outcome;
use crate::math::decimal_subtraction;
use crate::math::decimal_subtraction_outcome;
use crate::math::from_ratio_outcome;
use crate::math::reverse_decimal;
use crate::math::reverse_decimal_outcome;

verus! {

/// The atomics of `part / whole`, rounded down.
pub open spec fn fraction_of(part: int, whole: int) -> int {
    part * unit() / whole
}

/// A part of a whole is at most one.
pub proof fn lemma_fraction_at_most_one(part: int, whole: int)
    requires
        0 <= part <= whole,
        whole > 0,
    ensures
        0 <= fraction_of(part, whole) <= unit(),
{
    lemma_mul_nonnegative(part, unit());
    lemma_mul_inequality(part, whole, unit());
    lemma_div_is_ordered(part * unit(), whole * unit(), whole);
    lemma_div_multiples_vanish(unit(), whole);
    lemma_div_pos_is_pos(part * unit(), whole);
}

/// The verdict on a swap checked against the trader's own price: the return
/// the trader expects is the offer divided by that price, and the swap is
/// refused where the return falls short of it by more than `max_spread`.
pub open spec fn belief_price_outcome(
    belief_price: Decimal,
    max_spread: Decimal,
    offer_amount: int,
    return_amount: int,
) -> Result<(), ContractError> {
    match reverse_decimal_outcome(belief_price) {
        Err(e) => Err(e),
        Ok(inverse) => {
            let expected = offer_amount * inverse.atomics / unit();
            if expected > u128::MAX {
                Err(ContractError::Overflow)
            } else if return_amount < expected && fraction_of(expected - return_amount, expected)
                > max_spread.atomics {
                Err(
                    ContractError::MaxSpreadAssertion {
                        spread_ratio: Decimal {
                            atomics: fraction_of(expected - return_amount, expected) as u128,
                        },
                        max_spread,
                    },
                )
            } else {
                Ok(())
            }
        },
    }
}

/// The verdict on a swap checked against the pool's own price: the swap is
/// refused where the spread is more than `max_spread` of the return and the
/// spread together.
pub open spec fn pool_spread_outcome(max_spread: Decimal, return_amount: int, spread_amount: int) -> Result<
    (),
    ContractError,
> {
    let whole = return_amount + spread_amount;
    if whole > u128::MAX {
        Err(ContractError::Overflow)
    } else if whole == 0 {
        Err(ContractError::DivideByZero)
    } else if fraction_of(spread_amount, whole) > max_spread.atomics {
        Err(
            ContractError::MaxSpreadAssertion {
                spread_ratio: Decimal { atomics: fraction_of(spread_amount, whole) as u128 },
                max_spread,
            },
        )
    } else {
        Ok(())
    }
}

/// The verdict on a swap for the bounds a trader gave, failures included.
/// Without `max_spread` nothing is checked.
pub open spec fn assert_max_spread_outcome(
    belief_price: Option<Decimal>,
    max_spread: Option<Decimal>,
    offer_amount: int,
    return_amount: int,
    spread_amount: int,
) -> Result<(), ContractError> {
    match max_spread {
        None => Ok(()),
        Some(max) => match belief_price {
            Some(belief) => belief_price_outcome(belief, max, offer_amount, return_amount),
            None => pool_spread_outcome(max, return_amount, spread_amount),
        },
    }
}

/// Refuses a swap whose price is worse than the trader allowed.
/// `return_amount` is what the curve pays before commission is taken.
pub fn assert_max_spread(
    belief_price: Option<Decimal>,
    max_spread: Option<Decimal>,
    offer_amount: u128,
    return_amount: u128,
    spread_amount: u128,
) -> (r: Result<(), ContractError>)
    ensures
        r == assert_max_spread_outcome(
            belief_price,
            max_spread,
            offer_amount as int,
            return_amount as int,
            spread_amount as int,
        ),
        belief_price is None && max_spread is Some && 0 < return_amount + spread_amount
            <= u128::MAX ==> (r is Err <==> fraction_of(
            spread_amount as int,
            return_amount + spread_amount,
        ) > max_spread.unwrap().atomics),
{
    let max: Decimal = match max_spread {
        Some(v) => v,
        None => { return Ok(()); },
    };
    match belief_price {
        Some(belief) => {
            let inverse: Decimal = match reverse_decimal(belief) {
                Ok(v) => v,
                Err(e) => { return Err(e); },
            };
            let expected: u128 = match checked_mul_floor(offer_amount, inverse) {
                Ok(v) => v,
                Err(e) => { return Err(e); },
            };
            if return_amount < expected {
                let short: u128 = expected - return_amount;
                proof {
                    lemma_fraction_at_most_one(short as int, expected as int);
                }
                let spread_ratio: Decimal = match checked_from_ratio(short, expected) {
                    Ok(v) => v,
                    Err(e) => { return Err(e); },
                };
                if spread_ratio.atomics > max.atomics {
                    return Err(ContractError::MaxSpreadAssertion { spread_ratio, max_spread: max });
                }
            }
            Ok(())
        },
        None => {
            let whole: u128 = match return_amount.checked_add(spread_amount) {
                Some(v) => v,
                None => { return Err(ContractError::Overflow); },
            };
            proof {
                if whole > 0 {
                    lemma_fraction_at_most_one(spread_amount as int, whole as int);
                }
            }
            let spread_ratio: Decimal = match checked_from_ratio(spread_amount, whole) {
                Ok(v) => v,
                Err(e) => { return Err(e); },
            };
            if spread_ratio.atomics > max.atomics {
                return Err(ContractError::MaxSpreadAssertion { spread_ratio, max_spread: max });
            }
            Ok(())
        },
    }
}

/// One direction of the slippage check: the two ratios it compared, and
/// whether the deposit ratio, scaled down by the tolerance, still exceeds the
/// pool ratio.
#[derive(Clone, Copy, Debug, PartialEq, Eq, Structural)]
pub struct SlippageSide {
    pub deposits_ratio: Decimal,
    pub pools_ratio: Decimal,
    pub exceeded: bool,
}

/// The slippage check in one direction. `kept` is one minus the tolerance.
pub open spec fn slippage_side_outcome(
    deposit: int,
    other_deposit: int,
    pool: int,
    other_pool: int,
    kept: Decimal,
) -> Result<SlippageSide, ContractError> {
    match from_ratio_outcome(deposit, other_deposit) {
        Err(e) => Err(e),
        Ok(deposits_ratio) => match decimal_multiplication_outcome(deposits_ratio, kept) {
            Err(e) => Err(e),
            Ok(scaled) => match from_ratio_outcome(pool, other_pool) {
                Err(e) => Err(e),
                Ok(pools_ratio) => Ok(
                    SlippageSide {
                        deposits_ratio,
                        pools_ratio,
                        exceeded: scaled.atomics > pools_ratio.atomics,
                    },
                ),
            },
        },
    }
}

fn slippage_side(deposit: u128, other_deposit: u128, pool: u128, other_pool: u128, kept: Decimal) -> (r:
    Result<SlippageSide, ContractError>)
    ensures
        r == slippage_side_outcome(
            deposit as int,
            other_deposit as int,
            pool as int,
            other_pool as int,
            kept,
        ),
{
    let deposits_ratio: Decimal = match checked_from_ratio(deposit, other_deposit) {
        Ok(v) => v,
        Err(e) => { return Err(e); },
    };
    let scaled: Decimal = match decimal_multiplication(deposits_ratio, kept) {
        Ok(v) => v,
        Err(e) => { return Err(e); },
    };
    let pools_ratio: Decimal = match checked_from_ratio(pool, other_pool) {
        Ok(v) => v,
        Err(e) => { return Err(e); },
    };
    Ok(SlippageSide { deposits_ratio, pools_ratio, exceeded: scaled.atomics > pools_ratio.atomics })
}

/// The error that reports a direction of the slippage check as exceeded.
pub open spec fn slippage_error(side: SlippageSide, tolerance: Decimal) -> ContractError {
    ContractError::MaxSlippageAssertion {
        deposits_ratio: side.deposits_ratio,
        pools_ratio: side.pools_ratio,
        slippage_tolerance: tolerance,
    }
}

/// The verdict on a deposit of `d0` and `d1` into reserves of `p0` and `p1`
/// for the tolerance its provider gave, failures included: the deposit ratio
/// is checked against the pool ratio in both directions, the first direction
/// first. Without a tolerance nothing is checked.
pub open spec fn slippage_outcome(
    slippage_tolerance: Option<Decimal>,
    d0: u128,
    d1: u128,
    p0: u128,
    p1: u128,
) -> Result<(), ContractError> {
    match slippage_tolerance {
        None => Ok(()),
        Some(tolerance) => match decimal_subtraction_outcome(
            Decimal { atomics: unit() as u128 },
            tolerance,
        ) {
            Err(e) => Err(e),
            Ok(kept) => match slippage_side_outcome(d0 as int, d1 as int, p0 as int, p1 as int, kept) {
                Err(e) => Err(e),
                Ok(first) => if first.exceeded {
                    Err(slippage_error(first, tolerance))
                } else {
                    match slippage_side_outcome(d1 as int, d0 as int, p1 as int, p0 as int, kept) {
                        Err(e) => Err(e),
                        Ok(second) => if second.exceeded {
                            Err(slippage_error(second, tolerance))
                        } else {
                            Ok(())
                        },
                    }
                },
            },
        },
    }
}

/// `slippage_outcome` on the two deposits and the two reserves.
pub open spec fn assert_slippage_tolerance_outcome(
    slippage_tolerance: Option<Decimal>,
    deposits: [u128; 2],
    pools: [u128; 2],
) -> Result<(), ContractError> {
    slippage_outcome(slippage_tolerance, deposits[0], deposits[1], pools[0], pools[1])
}

/// Refuses a deposit whose ratio strays from the pool's by more than the
/// provider allowed.
pub fn assert_slippage_tolerance(
    slippage_tolerance: Option<Decimal>,
    deposits: &[u128; 2],
    pools: &[u128; 2],
) -> (r: Result<(), ContractError>)
    ensures
        r == assert_slippage_tolerance_outcome(slippage_tolerance, *deposits, *pools),
{
    let tolerance: Decimal = match slippage_tolerance {
        Some(v) => v,
        None => { return Ok(()); },
    };
    let kept: Decimal = match decimal_subtraction(Decimal::one(), tolerance) {
        Ok(v) => v,
        Err(e) => { return Err(e); },
    };
    let first: SlippageSide = match slippage_side(deposits[0], deposits[1], pools[0], pools[1], kept) {
        Ok(v) => v,
        Err(e) => { return Err(e); },
    };
    if first.exceeded {
        return Err(
            ContractError::MaxSlippageAssertion {
                deposits_ratio: first.deposits_ratio,
                pools_ratio: first.pools_ratio,
                slippage_tolerance: tolerance,
            },
        );
    }
    let second: SlippageSide = match slippage_side(deposits[1], deposits[0], pools[1], pools[0], kept) {
        Ok(v) => v,
        Err(e) => { return Err(e); },
    };
    if second.exceeded {
        return Err(
            ContractError::MaxSlippageAssertion {
                deposits_ratio: second.deposits_ratio,
                pools_ratio: second.pools_ratio,
                slippage_tolerance: tolerance,
            },
        );
    }
    Ok(())
}

/// Two equal ratios have the same decimal.
pub proof fn lemma_equal_ratios(a: int, b: int, c: int, d: int)
    requires
        a >= 0,
        c >= 0,
        b > 0,
        d > 0,
        a * d == b * c,
    ensures
        fraction_of(a, b) == fraction_of(c, d),
{
    let u = unit();
    let q = a * u / b;
    let rem = a * u % b;
    vstd::arithmetic::div_mod::lemma_fundamental_div_mod(a * u, b);
    vstd::arithmetic::div_mod::lemma_mod_bound(a * u, b);
    assert(a * u == b * q + rem);
    let rest = c * u - q * d;
    assert(b * rest == rem * d) by (nonlinear_arith)
        requires
            a * u == b * q + rem,
            a * d == b * c,
            rest == c * u - q * d,
    ;
    assert(0 <= rest < d) by (nonlinear_arith)
        requires
            b * rest == rem * d,
            0 <= rem < b,
            d > 0,
            b > 0,
    ;
    vstd::arithmetic::div_mod::lemma_fundamental_div_mod_converse(c * u, d, q, rest);
}

/// Taking a part of at most one of a decimal, at nine digits, does not make
/// it larger.
pub proof fn lemma_scaling_down_shrinks(x: Decimal, kept: Decimal)
    requires
        kept.atomics <= unit(),
    ensures
        decimal_multiplication_outcome(x, kept) matches Ok(scaled) && scaled.atomics <= x.atomics,
{
    let h = crate::math::to_helper(x);
    let e = crate::decimal::helper_unit();
    crate::math::lemma_scale_down(x.atomics as int);
    lemma_mul_nonnegative(h, kept.atomics as int);
    assert(h * kept.atomics <= h * unit()) by (nonlinear_arith)
        requires
            h >= 0,
            kept.atomics <= unit(),
    ;
    lemma_div_is_ordered(h * kept.atomics, h * unit(), unit());
    vstd::arithmetic::mul::lemma_mul_is_commutative(h, unit());
    lemma_div_multiples_vanish(h, unit());
    lemma_div_pos_is_pos(h * kept.atomics, unit());
    let v = h * kept.atomics / unit();
    assert(0 <= v * e <= h * e) by (nonlinear_arith)
        requires
            0 <= v <= h,
            e > 0,
    ;
    vstd::arithmetic::div_mod::lemma_fundamental_div_mod(x.atomics as int, e);
    vstd::arithmetic::div_mod::lemma_mod_bound(x.atomics as int, e);
    vstd::arithmetic::mul::lemma_mul_is_commutative(h, e);
}

/// What is kept of one after a tolerance is taken off is at most one.
pub proof fn lemma_kept_at_most_one(tolerance: Decimal)
    ensures
        decimal_subtraction_outcome(Decimal { atomics: unit() as u128 }, tolerance) matches Ok(kept)
            ==> kept.atomics <= unit(),
{
    let e = crate::decimal::helper_unit();
    let one = Decimal { atomics: unit() as u128 };
    assert(crate::math::to_helper(one) == e) by {
        lemma_div_multiples_vanish(e, e);
    }
    crate::math::lemma_scale_down(tolerance.atomics as int);
    let t = crate::math::to_helper(tolerance);
    assert((e - t) * e <= e * e) by (nonlinear_arith)
        requires
            0 <= t,
            e > 0,
    ;
}

/// One direction of the slippage check never finds a deposit at the pool's
/// own ratio to exceed it.
pub proof fn lemma_side_at_pool_ratio(deposit: u128, other_deposit: u128, pool: u128, other_pool: u128, kept: Decimal)
    requires
        deposit * other_pool == other_deposit * pool,
        kept.atomics <= unit(),
    ensures
        slippage_side_outcome(
            deposit as int,
            other_deposit as int,
            pool as int,
            other_pool as int,
            kept,
        ) matches Ok(side) ==> !side.exceeded,
{
    if other_deposit > 0 && other_pool > 0 {
        lemma_equal_ratios(deposit as int, other_deposit as int, pool as int, other_pool as int);
        match from_ratio_outcome(deposit as int, other_deposit as int) {
            Ok(ratio) => {
                lemma_scaling_down_shrinks(ratio, kept);
            },
            Err(_) => {},
        }
    }
}

/// A deposit at exactly the pool's ratio is never refused for slippage,
/// whatever the tolerance.
pub proof fn lemma_proportional_deposit_passes(
    slippage_tolerance: Option<Decimal>,
    deposits: [u128; 2],
    pools: [u128; 2],
)
    requires
        deposits[0] * pools[1] == deposits[1] * pools[0],
    ensures
        !(assert_slippage_tolerance_outcome(slippage_tolerance, deposits, pools) matches Err(
            ContractError::MaxSlippageAssertion { .. },
        )),
{
    match slippage_tolerance {
        None => {},
        Some(tolerance) => {
            lemma_kept_at_most_one(tolerance);
            match decimal_subtraction_outcome(Decimal { atomics: unit() as u128 }, tolerance) {
                Ok(kept) => {
                    lemma_side_at_pool_ratio(deposits[0], deposits[1], pools[0], pools[1], kept);
                    lemma_side_at_pool_ratio(deposits[1], deposits[0], pools[1], pools[0], kept);
                },
                Err(_) => {},
            }
        },
    }
}

} // verus!
