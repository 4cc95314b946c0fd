use vstd::prelude::*;
use crate::decimal::Decimal;
use crate::decimal::unit;
use crate::decimal::helper_unit;
use crate::decimal::HELPER_FRACTIONAL;
use vstd::arithmetic::div_mod::lemma_div_multiples_vanish;
use vstd::arithmetic::div_mod::lemma_div_multiples_vanish_quotient;
use crate::error::ContractError;
use integer_sqrt::IntegerSquareRoot;

verus! {

/// `r` is the integer square root of `n`: the largest integer whose square
/// does not exceed `n`.
pub open spec fn is_floor_sqrt(n: int, r: int) -> bool {
    0 <= r && r * r <= n && n < (r + 1) * (r + 1)
}

/// What a floored `a * n / d` gives in 128 bits: the quotient, or the reason
/// there is none.
pub open spec fn ratio_outcome(a: int, n: int, d: int) -> Result<u128, ContractError> {
    if d == 0 {
        Err(ContractError::DivideByZero)
    } else if a * n / d > u128::MAX {
        Err(ContractError::Overflow)
    } else {
        Ok((a * n / d) as u128)
    }
}

/// Calls `cosmwasm_std::Uint128::checked_multiply_ratio`. Trusted: the product
/// is taken in 256 bits and divided with rounding down; a zero denominator and
/// a quotient beyond 128 bits are reported, never a panic.
#[verifier::external_body]
pub(crate) fn checked_multiply_ratio(a: u128, numerator: u128, denominator: u128) -> (r: Result<
    u128,
    ContractError,
>)
    ensures
        r == ratio_outcome(a as int, numerator as int, denominator as int),
{
    match cosmwasm_std::Uint128::new(a).checked_multiply_ratio(numerator, denominator) {
        Ok(v) => Ok(v.u128()),
        Err(cosmwasm_std::CheckedMultiplyRatioError::DivideByZero) => Err(
            ContractError::DivideByZero,
        ),
        Err(cosmwasm_std::CheckedMultiplyRatioError::Overflow) => Err(ContractError::Overflow),
    }
}

/// What `numerator / denominator` gives as a decimal: the atomics
/// `numerator * 10^18 / denominator`, or the reason there are none.
pub open spec fn from_ratio_outcome(numerator: int, denominator: int) -> Result<
    Decimal,
    ContractError,
> {
    match ratio_outcome(numerator, unit(), denominator) {
        Ok(v) => Ok(Decimal { atomics: v }),
        Err(e) => Err(e),
    }
}

/// Calls `cosmwasm_std::Decimal::checked_from_ratio`. Trusted: the atomics of
/// the result are `numerator * 10^18 / denominator` rounded down; a zero
/// denominator and atomics beyond 128 bits are reported, never a panic.
#[verifier::external_body]
pub(crate) fn checked_from_ratio(numerator: u128, denominator: u128) -> (r: Result<
    Decimal,
    ContractError,
>)
    ensures
        r == from_ratio_outcome(numerator as int, denominator as int),
{
    match cosmwasm_std::Decimal::checked_from_ratio(numerator, denominator) {
        Ok(v) => Ok(Decimal { atomics: v.atomics().u128() }),
        Err(cosmwasm_std::CheckedFromRatioError::DivideByZero) => Err(ContractError::DivideByZero),
        Err(cosmwasm_std::CheckedFromRatioError::Overflow) => Err(ContractError::Overflow),
    }
}

/// Calls `cosmwasm_std::Uint128::checked_mul_floor` with a decimal as the
/// fraction. Trusted: the result is `a * rhs.atomics / 10^18` rounded down,
/// and a result beyond 128 bits is reported as an overflow.
#[verifier::external_body]
pub(crate) fn checked_mul_floor(a: u128, rhs: Decimal) -> (r: Result<u128, ContractError>)
    ensures
        r == ratio_outcome(a as int, rhs.atomics as int, unit()),
{
    let fraction = cosmwasm_std::Decimal::new(cosmwasm_std::Uint128::new(rhs.atomics));
    match cosmwasm_std::Uint128::new(a).checked_mul_floor(fraction) {
        Ok(v) => Ok(v.u128()),
        Err(_) => Err(ContractError::Overflow),
    }
}

/// Calls `integer_sqrt::IntegerSquareRoot::integer_sqrt` on a `u128`.
/// Trusted: the result is the largest integer whose square does not exceed `n`.
#[verifier::external_body]
pub(crate) fn integer_sqrt(n: u128) -> (r: u128)
    ensures
        is_floor_sqrt(n as int, r as int),
{
    n.integer_sqrt()
}

/// A decimal cut down to nine fractional digits, as an integer count of
/// billionths.
pub open spec fn to_helper(d: Decimal) -> int {
    d.atomics as int / helper_unit()
}

/// Scaling a count of atomics to billionths of a whole is a division by 10^9.
pub proof fn lemma_scale_down(x: int)
    requires
        x >= 0,
    ensures
        helper_unit() * x / unit() == x / helper_unit(),
        0 <= x / helper_unit() <= x,
{
    lemma_div_multiples_vanish_quotient(helper_unit(), x, helper_unit());
    assert(helper_unit() * helper_unit() == unit());
    vstd::arithmetic::div_mod::lemma_div_nonincreasing(x, helper_unit());
    vstd::arithmetic::div_mod::lemma_div_pos_is_pos(x, helper_unit());
}

/// A count of billionths, taken as a ratio over 10^9, has `v * 10^9` atomics.
pub proof fn lemma_scale_up(v: int)
    requires
        v >= 0,
    ensures
        v * unit() / helper_unit() == v * helper_unit(),
{
    lemma_div_multiples_vanish(v * helper_unit(), helper_unit());
    assert(v * unit() == helper_unit() * (v * helper_unit())) by (nonlinear_arith);
}

/// What `a - b` gives at nine digits: both are cut down to billionths first.
pub open spec fn decimal_subtraction_outcome(a: Decimal, b: Decimal) -> Result<
    Decimal,
    ContractError,
> {
    if to_helper(b) > to_helper(a) {
        Err(ContractError::Underflow)
    } else {
        Ok(Decimal { atomics: ((to_helper(a) - to_helper(b)) * helper_unit()) as u128 })
    }
}

/// `a - b` at nine fractional digits; an underflow where `b` is the larger.
pub fn decimal_subtraction(a: Decimal, b: Decimal) -> (r: Result<Decimal, ContractError>)
    ensures
        r == decimal_subtraction_outcome(a, b),
        r matches Ok(d) ==> d.atomics <= a.atomics,
{
    proof {
        lemma_scale_down(a.atomics as int);
        lemma_scale_down(b.atomics as int);
    }
    let left: u128 = match checked_mul_floor(HELPER_FRACTIONAL, a) {
        Ok(v) => v,
        Err(e) => { return Err(e); },
    };
    let right: u128 = match checked_mul_floor(HELPER_FRACTIONAL, b) {
        Ok(v) => v,
        Err(e) => { return Err(e); },
    };
    if right > left {
        return Err(ContractError::Underflow);
    }
    let diff: u128 = left - right;
    proof {
        lemma_scale_up(diff as int);
        assert(diff * helper_unit() <= left * helper_unit()) by (nonlinear_arith)
            requires
                diff <= left,
        ;
        vstd::arithmetic::div_mod::lemma_remainder_lower(a.atomics as int, helper_unit());
    }
    checked_from_ratio(diff, HELPER_FRACTIONAL)
}

/// What `a * b` gives at nine digits: `a` is cut down to billionths, scaled by
/// `b` with rounding down, and taken back to atomics.
pub open spec fn decimal_multiplication_outcome(a: Decimal, b: Decimal) -> Result<
    Decimal,
    ContractError,
> {
    if to_helper(a) * b.atomics / unit() * helper_unit() > u128::MAX {
        Err(ContractError::Overflow)
    } else {
        Ok(Decimal { atomics: (to_helper(a) * b.atomics / unit() * helper_unit()) as u128 })
    }
}

/// `a * b` at nine fractional digits.
pub fn decimal_multiplication(a: Decimal, b: Decimal) -> (r: Result<Decimal, ContractError>)
    ensures
        r == decimal_multiplication_outcome(a, b),
{
    proof {
        lemma_scale_down(a.atomics as int);
    }
    let left: u128 = match checked_mul_floor(HELPER_FRACTIONAL, a) {
        Ok(v) => v,
        Err(e) => { return Err(e); },
    };
    proof {
        vstd::arithmetic::mul::lemma_mul_nonnegative(left as int, b.atomics as int);
        vstd::arithmetic::div_mod::lemma_div_pos_is_pos(left * b.atomics, unit());
        assert(left * b.atomics / unit() <= left * b.atomics / unit() * helper_unit())
            by (nonlinear_arith)
            requires
                left * b.atomics / unit() >= 0,
        ;
    }
    let scaled: u128 = match checked_mul_floor(left, b) {
        Ok(v) => v,
        Err(e) => { return Err(e); },
    };
    proof {
        lemma_scale_up(scaled as int);
    }
    checked_from_ratio(scaled, HELPER_FRACTIONAL)
}

/// What `1 / d` gives at nine digits. The inverse of zero is taken to be zero;
/// a positive `d` under one billionth has no inverse.
pub open spec fn reverse_decimal_outcome(d: Decimal) -> Result<Decimal, ContractError> {
    if d.atomics == 0 {
        Ok(Decimal { atomics: 0 })
    } else if to_helper(d) == 0 {
        Err(ContractError::DivideByZero)
    } else {
        Ok(Decimal { atomics: (helper_unit() * unit() / to_helper(d)) as u128 })
    }
}

/// `1 / d` at nine fractional digits.
pub fn reverse_decimal(d: Decimal) -> (r: Result<Decimal, ContractError>)
    ensures
        r == reverse_decimal_outcome(d),
{
    if d.is_zero() {
        return Ok(Decimal::zero());
    }
    proof {
        lemma_scale_down(d.atomics as int);
    }
    let scaled: u128 = match checked_mul_floor(HELPER_FRACTIONAL, d) {
        Ok(v) => v,
        Err(e) => { return Err(e); },
    };
    proof {
        if scaled > 0 {
            vstd::arithmetic::div_mod::lemma_div_nonincreasing(
                helper_unit() * unit(),
                scaled as int,
            );
            vstd::arithmetic::div_mod::lemma_div_pos_is_pos(helper_unit() * unit(), scaled as int);
        }
    }
    checked_from_ratio(HELPER_FRACTIONAL, scaled)
}

} // verus!
