use vstd::prelude::*;
use vstd::arithmetic::div_mod::lemma_div_is_ordered;
use vstd::arithmetic::div_mod::lemma_div_multiples_vanish;
use vstd::arithmetic::div_mod::lemma_div_pos_is_pos;
use vstd::arithmetic::mul::lemma_mul_inequality;
use vstd::arithmetic::mul::lemma_mul_is_commutative;
use vstd::arithmetic::mul::lemma_mul_nonnegative;
use crate::decimal::helper_unit;
use crate::decimal::unit;
use crate::decimal::Decimal;
use crate::error::ContractError;
use crate::math::checked_from_ratio;
use crate::math::checked_mul_floor;
use crate::math::checked_multiply_ratio;
use crate::math::decimal_subtraction;
use crate::math::lemma_scale_down;
use crate::math::reverse_decimal;
use crate::math::to_helper;

verus! {

/// What a swap pays: the amount handed to the trader, the shortfall against
/// the price before the trade, and the commission that stays in the pool.
#[derive(Clone, Copy, Debug, PartialEq, Eq, Structural)]
pub struct SwapQuote {
    pub return_amount: u128,
    pub spread_amount: u128,
    pub commission_amount: u128,
}

/// The ask-side amount that leaves the curve when `offer_amount` enters it:
/// the product of the reserves is kept, the quotient rounded down.
pub open spec fn gross_return(offer_pool: int, ask_pool: int, offer_amount: int) -> int {
    ask_pool - offer_pool * ask_pool / (offer_pool + offer_amount)
}

/// The price of the offered asset before the trade, in atomics of the asked
/// asset per unit.
pub open spec fn pool_price(offer_pool: int, ask_pool: int) -> int {
    ask_pool * unit() / offer_pool
}

/// What `offer_amount` would buy if the trade did not move the price.
pub open spec fn ideal_return(offer_pool: int, ask_pool: int, offer_amount: int) -> int {
    offer_amount * pool_price(offer_pool, ask_pool) / unit()
}

/// How far `actual` falls short of `ideal`, and zero where it does not.
pub open spec fn shortfall(ideal: int, actual: int) -> int {
    if ideal > actual {
        ideal - actual
    } else {
        0
    }
}

/// The commission on `gross`, rounded down.
pub open spec fn commission_of(gross: int, rate: Decimal) -> int {
    gross * rate.atomics / unit()
}

/// The whole result of pricing a swap, failures included.
pub open spec fn compute_swap_outcome(
    offer_pool: int,
    ask_pool: int,
    offer_amount: int,
    rate: Decimal,
) -> Result<SwapQuote, ContractError> {
    let gross = gross_return(offer_pool, ask_pool, offer_amount);
    let ideal = ideal_return(offer_pool, ask_pool, offer_amount);
    let commission = commission_of(gross, rate);
    if offer_pool == 0 {
        Err(ContractError::DivideByZero)
    } else if offer_pool * ask_pool > u128::MAX || offer_pool + offer_amount > u128::MAX
        || pool_price(offer_pool, ask_pool) > u128::MAX || ideal > u128::MAX || commission
        > u128::MAX {
        Err(ContractError::Overflow)
    } else if commission > gross {
        Err(ContractError::Underflow)
    } else {
        Ok(
            SwapQuote {
                return_amount: (gross - commission) as u128,
                spread_amount: shortfall(ideal, gross) as u128,
                commission_amount: commission as u128,
            },
        )
    }
}

/// The curve never pays out more than the ask-side reserve holds.
pub proof fn lemma_gross_return_bounds(offer_pool: int, ask_pool: int, offer_amount: int)
    requires
        offer_pool >= 0,
        ask_pool >= 0,
        offer_amount >= 0,
        offer_pool + offer_amount > 0,
    ensures
        0 <= gross_return(offer_pool, ask_pool, offer_amount) <= ask_pool,
{
    let d = offer_pool + offer_amount;
    lemma_mul_nonnegative(offer_pool, ask_pool);
    lemma_mul_inequality(offer_pool, d, ask_pool);
    lemma_mul_is_commutative(d, ask_pool);
    lemma_div_is_ordered(offer_pool * ask_pool, d * ask_pool, d);
    lemma_div_multiples_vanish(ask_pool, d);
    lemma_div_pos_is_pos(offer_pool * ask_pool, d);
}

/// Prices the sale of `offer_amount` into a pool of `offer_pool` against
/// `ask_pool`, with the commission taken from what the curve pays.
pub fn compute_swap(offer_pool: u128, ask_pool: u128, offer_amount: u128, commission_rate: Decimal) -> (r:
    Result<SwapQuote, ContractError>)
    ensures
        r == compute_swap_outcome(
            offer_pool as int,
            ask_pool as int,
            offer_amount as int,
            commission_rate,
        ),
        r matches Ok(q) ==> q.return_amount + q.commission_amount == gross_return(
            offer_pool as int,
            ask_pool as int,
            offer_amount as int,
        ) && q.return_amount + q.commission_amount <= ask_pool,
{
    if offer_pool == 0 {
        return Err(ContractError::DivideByZero);
    }
    let product: u128 = match offer_pool.checked_mul(ask_pool) {
        Some(v) => v,
        None => { return Err(ContractError::Overflow); },
    };
    let after: u128 = match offer_pool.checked_add(offer_amount) {
        Some(v) => v,
        None => { return Err(ContractError::Overflow); },
    };
    proof {
        lemma_gross_return_bounds(offer_pool as int, ask_pool as int, offer_amount as int);
        assert(product as int * 1 == offer_pool * ask_pool);
    }
    let kept: u128 = match checked_multiply_ratio(product, 1, after) {
        Ok(v) => v,
        Err(e) => { return Err(e); },
    };
    let gross: u128 = ask_pool - kept;
    let price: Decimal = match checked_from_ratio(ask_pool, offer_pool) {
        Ok(v) => v,
        Err(e) => { return Err(e); },
    };
    let ideal: u128 = match checked_mul_floor(offer_amount, price) {
        Ok(v) => v,
        Err(e) => { return Err(e); },
    };
    let spread_amount: u128 = if ideal > gross {
        ideal - gross
    } else {
        0
    };
    let commission_amount: u128 = match checked_mul_floor(gross, commission_rate) {
        Ok(v) => v,
        Err(e) => { return Err(e); },
    };
    if commission_amount > gross {
        return Err(ContractError::Underflow);
    }
    Ok(SwapQuote { return_amount: gross - commission_amount, spread_amount, commission_amount })
}

/// The billionths of a gross amount that are left once the commission is
/// taken: one minus the rate, at nine fractional digits.
pub open spec fn net_share(rate: Decimal) -> int {
    helper_unit() - to_helper(rate)
}

/// The atomics of the factor that turns a net amount into the gross amount it
/// was cut from: the inverse of `net_share`, and zero where nothing is left.
pub open spec fn gross_up_factor(rate: Decimal) -> int {
    if net_share(rate) == 0 {
        0
    } else {
        helper_unit() * unit() / net_share(rate)
    }
}

/// The gross amount that nets to `ask_amount` after commission, rounded down.
pub open spec fn before_commission(ask_amount: int, rate: Decimal) -> int {
    ask_amount * gross_up_factor(rate) / unit()
}

/// The offer that moves the curve far enough to release `gross` from the
/// ask-side reserve.
pub open spec fn required_offer(offer_pool: int, ask_pool: int, gross: int) -> int {
    offer_pool * ask_pool / (ask_pool - gross) - offer_pool
}

/// The whole result of pricing a swap backwards, failures included. The
/// triple is the offer, the spread and the commission.
pub open spec fn compute_offer_amount_outcome(
    offer_pool: int,
    ask_pool: int,
    ask_amount: int,
    rate: Decimal,
) -> Result<(u128, u128, u128), ContractError> {
    let gross = before_commission(ask_amount, rate);
    let offer = required_offer(offer_pool, ask_pool, gross);
    let ideal = ideal_return(offer_pool, ask_pool, offer);
    let commission = commission_of(gross, rate);
    if net_share(rate) < 0 {
        Err(ContractError::Underflow)
    } else if offer_pool * ask_pool > u128::MAX || gross > u128::MAX {
        Err(ContractError::Overflow)
    } else if gross > ask_pool {
        Err(ContractError::Underflow)
    } else if gross == ask_pool || offer_pool == 0 {
        Err(ContractError::DivideByZero)
    } else if pool_price(offer_pool, ask_pool) > u128::MAX || ideal > u128::MAX || commission
        > u128::MAX {
        Err(ContractError::Overflow)
    } else {
        Ok((offer as u128, shortfall(ideal, gross) as u128, commission as u128))
    }
}

/// Releasing part of the ask-side reserve never takes a negative offer.
pub proof fn lemma_required_offer_nonnegative(offer_pool: int, ask_pool: int, gross: int)
    requires
        offer_pool >= 0,
        0 <= gross < ask_pool,
    ensures
        required_offer(offer_pool, ask_pool, gross) >= 0,
{
    let d = ask_pool - gross;
    lemma_mul_nonnegative(offer_pool, d);
    assert(offer_pool * d <= offer_pool * ask_pool) by (nonlinear_arith)
        requires
            offer_pool >= 0,
            d <= ask_pool,
    ;
    lemma_div_is_ordered(offer_pool * d, offer_pool * ask_pool, d);
    lemma_mul_is_commutative(offer_pool, d);
    lemma_div_multiples_vanish(offer_pool, d);
}

/// The offer that has to enter a pool of `offer_pool` against `ask_pool` for
/// the trader to receive `ask_amount` after commission, with the spread and
/// the commission of that trade.
pub fn compute_offer_amount(
    offer_pool: u128,
    ask_pool: u128,
    ask_amount: u128,
    commission_rate: Decimal,
) -> (r: Result<(u128, u128, u128), ContractError>)
    ensures
        r == compute_offer_amount_outcome(
            offer_pool as int,
            ask_pool as int,
            ask_amount as int,
            commission_rate,
        ),
{
    proof {
        lemma_scale_down(commission_rate.atomics as int);
    }
    let kept: Decimal = match decimal_subtraction(Decimal::one(), commission_rate) {
        Ok(v) => v,
        Err(e) => { return Err(e); },
    };
    proof {
        assert(to_helper(Decimal { atomics: unit() as u128 }) == helper_unit()) by {
            lemma_div_multiples_vanish(helper_unit(), helper_unit());
        }
        assert(kept.atomics == net_share(commission_rate) * helper_unit());
        lemma_mul_is_commutative(net_share(commission_rate), helper_unit());
        lemma_div_multiples_vanish(net_share(commission_rate), helper_unit());
        assert(to_helper(kept) == net_share(commission_rate));
        if net_share(commission_rate) > 0 {
            vstd::arithmetic::div_mod::lemma_div_nonincreasing(
                helper_unit() * unit(),
                net_share(commission_rate),
            );
            lemma_div_pos_is_pos(helper_unit() * unit(), net_share(commission_rate));
        }
    }
    let factor: Decimal = match reverse_decimal(kept) {
        Ok(v) => v,
        Err(e) => { return Err(e); },
    };
    assert(factor.atomics == gross_up_factor(commission_rate));
    let product: u128 = match offer_pool.checked_mul(ask_pool) {
        Some(v) => v,
        None => { return Err(ContractError::Overflow); },
    };
    let gross: u128 = match checked_mul_floor(ask_amount, factor) {
        Ok(v) => v,
        Err(e) => { return Err(e); },
    };
    if gross > ask_pool {
        return Err(ContractError::Underflow);
    }
    let left: u128 = ask_pool - gross;
    proof {
        assert(product as int * 1 == offer_pool * ask_pool);
        if left > 0 {
            lemma_required_offer_nonnegative(offer_pool as int, ask_pool as int, gross as int);
        }
    }
    let target: u128 = match checked_multiply_ratio(product, 1, left) {
        Ok(v) => v,
        Err(e) => { return Err(e); },
    };
    let offer_amount: u128 = target - offer_pool;
    let price: Decimal = match checked_from_ratio(ask_pool, offer_pool) {
        Ok(v) => v,
        Err(e) => { return Err(e); },
    };
    let ideal: u128 = match checked_mul_floor(offer_amount, price) {
        Ok(v) => v,
        Err(e) => { return Err(e); },
    };
    let spread_amount: u128 = if ideal > gross {
        ideal - gross
    } else {
        0
    };
    let commission_amount: u128 = match checked_mul_floor(gross, commission_rate) {
        Ok(v) => v,
        Err(e) => { return Err(e); },
    };
    Ok((offer_amount, spread_amount, commission_amount))
}

/// Without commission, pricing a swap backwards from what it returned gives
/// the offer back, and on top of it only what the rounding of the curve's
/// division left over: the remainder of that division, counted in units of
/// the ask-side reserve that the swap left. Where that reserve is at least
/// the offer-side reserve after the swap, the offer comes back exactly. The
/// backward pricing can still fail for want of room, and for nothing else.
pub proof fn lemma_round_trip_without_commission(offer_pool: u128, ask_pool: u128, offer_amount: u128)
    requires
        compute_swap_outcome(
            offer_pool as int,
            ask_pool as int,
            offer_amount as int,
            Decimal { atomics: 0 },
        ) is Ok,
        offer_pool * ask_pool / (offer_pool + offer_amount) > 0,
    ensures
        ({
            let free = Decimal { atomics: 0 };
            let quote = compute_swap_outcome(
                offer_pool as int,
                ask_pool as int,
                offer_amount as int,
                free,
            ).unwrap();
            let product = offer_pool * ask_pool;
            let after = offer_pool + offer_amount;
            match compute_offer_amount_outcome(
                offer_pool as int,
                ask_pool as int,
                quote.return_amount as int,
                free,
            ) {
                Ok((offer, _, _)) => offer == offer_amount + (product % after) / (product / after)
                    && offer_amount <= offer <= offer_amount + (after - 1) / (product / after),
                Err(e) => e == ContractError::Overflow,
            }
        }),
{
    let free = Decimal { atomics: 0 };
    let product = offer_pool * ask_pool;
    let after = offer_pool + offer_amount;
    let left = product / after;
    let rest = product % after;
    let gross = gross_return(offer_pool as int, ask_pool as int, offer_amount as int);
    lemma_gross_return_bounds(offer_pool as int, ask_pool as int, offer_amount as int);
    assert(commission_of(gross, free) == 0) by {
        assert(gross * 0 == 0);
    }
    assert(to_helper(free) == 0);
    assert(gross_up_factor(free) == unit()) by {
        lemma_mul_is_commutative(helper_unit(), unit());
        lemma_div_multiples_vanish(unit(), helper_unit());
    }
    assert(before_commission(gross, free) == gross) by {
        lemma_mul_is_commutative(gross, unit());
        lemma_div_multiples_vanish(gross, unit());
    }
    assert(ask_pool - gross == left);
    vstd::arithmetic::div_mod::lemma_fundamental_div_mod(product, after);
    vstd::arithmetic::div_mod::lemma_mod_bound(product, after);
    assert(product == rest + after * left);
    vstd::arithmetic::div_mod::lemma_hoist_over_denominator(rest, after, left as nat);
    assert(product / left == rest / left + after);
    lemma_div_pos_is_pos(rest, left);
    lemma_div_is_ordered(rest, after - 1, left);
    assert(required_offer(offer_pool as int, ask_pool as int, gross) == offer_amount + rest / left);
}

/// A commission rate with at most nine fractional digits, given as a whole
/// number of billionths.
pub open spec fn rate_of_billionths(billionths: int) -> Decimal {
    Decimal { atomics: (billionths * helper_unit()) as u128 }
}

/// What is left of `gross` after a commission of `billionths` billionths is
/// the net part of it, rounded up: taken in billionths it exceeds
/// `gross * (10^9 - billionths)` by less than one unit.
pub proof fn lemma_net_return_rounds_up(gross: int, billionths: int)
    requires
        gross >= 0,
        0 <= billionths < helper_unit(),
    ensures
        commission_of(gross, rate_of_billionths(billionths)) == gross * billionths / helper_unit(),
        0 <= commission_of(gross, rate_of_billionths(billionths)) <= gross,
        ({
            let net = gross - commission_of(gross, rate_of_billionths(billionths));
            let kept = helper_unit() - billionths;
            gross * kept <= net * helper_unit() < gross * kept + helper_unit()
        }),
{
    let e = helper_unit();
    let rate = rate_of_billionths(billionths);
    assert(rate.atomics == billionths * e) by (nonlinear_arith)
        requires
            0 <= billionths < 1_000_000_000,
            e == 1_000_000_000,
            rate.atomics == (billionths * e) as u128,
    ;
    lemma_mul_nonnegative(gross, billionths);
    assert(gross * rate.atomics == e * (gross * billionths)) by (nonlinear_arith)
        requires
            rate.atomics == billionths * e,
    ;
    vstd::arithmetic::div_mod::lemma_div_multiples_vanish_quotient(e, gross * billionths, e);
    assert(e * e == unit());
    let q = gross * billionths / e;
    let t = gross * billionths % e;
    vstd::arithmetic::div_mod::lemma_fundamental_div_mod(gross * billionths, e);
    vstd::arithmetic::div_mod::lemma_mod_bound(gross * billionths, e);
    lemma_div_pos_is_pos(gross * billionths, e);
    let kept = e - billionths;
    assert((gross - q) * e == gross * kept + t) by (nonlinear_arith)
        requires
            gross * billionths == e * q + t,
            kept == e - billionths,
    ;
    assert(q <= gross) by (nonlinear_arith)
        requires
            (gross - q) * e == gross * kept + t,
            gross >= 0,
            kept > 0,
            t >= 0,
            e > 0,
    ;
}

/// Grossing a net return up again lands within one unit of the gross amount
/// it was cut from, for a commission of less than half and a return of less
/// than 10^18 units.
pub proof fn lemma_gross_up_recovers(gross: int, billionths: int)
    requires
        gross >= 0,
        0 <= billionths,
        2 * billionths < helper_unit(),
        gross - commission_of(gross, rate_of_billionths(billionths)) < unit(),
    ensures
        ({
            let rate = rate_of_billionths(billionths);
            let net = gross - commission_of(gross, rate);
            gross - 1 <= before_commission(net, rate) <= gross + 1
        }),
{
    let e = helper_unit();
    let u = unit();
    let rate = rate_of_billionths(billionths);
    let kept = e - billionths;
    lemma_net_return_rounds_up(gross, billionths);
    let net = gross - commission_of(gross, rate);
    assert(rate.atomics == billionths * e) by (nonlinear_arith)
        requires
            0 <= billionths < 1_000_000_000,
            e == 1_000_000_000,
            rate.atomics == (billionths * e) as u128,
    ;
    assert(to_helper(rate) == billionths) by {
        lemma_mul_is_commutative(billionths, e);
        lemma_div_multiples_vanish(billionths, e);
    }
    assert(net_share(rate) == kept);
    let factor = e * u / kept;
    let slack = e * u % kept;
    assert(gross_up_factor(rate) == factor);
    vstd::arithmetic::div_mod::lemma_fundamental_div_mod(e * u, kept);
    vstd::arithmetic::div_mod::lemma_mod_bound(e * u, kept);
    lemma_div_pos_is_pos(e * u, kept);
    assert(e * u == kept * factor + slack);
    let back = net * factor / u;
    let rest = net * factor % u;
    lemma_mul_nonnegative(net, factor);
    vstd::arithmetic::div_mod::lemma_fundamental_div_mod(net * factor, u);
    vstd::arithmetic::div_mod::lemma_mod_bound(net * factor, u);
    assert(net * factor == u * back + rest);
    assert(before_commission(net, rate) == back);
    // back * kept * u <= net * factor * kept <= net * e * u < (gross * kept + e) * u
    assert(back * kept < gross * kept + e) by (nonlinear_arith)
        requires
            net * factor == u * back + rest,
            0 <= rest,
            e * u == kept * factor + slack,
            0 <= slack,
            net >= 0,
            kept > 0,
            u > 0,
            net * e < gross * kept + e,
    ;
    assert(back <= gross + 1) by (nonlinear_arith)
        requires
            back * kept < gross * kept + e,
            e < 2 * kept,
            kept > 0,
    ;
    // (back + 1) * u * kept > net * factor * kept > net * e * u - net * kept
    assert((back + 1) * u > gross * u - net) by (nonlinear_arith)
        requires
            net * factor == u * back + rest,
            rest < u,
            e * u == kept * factor + slack,
            slack < kept,
            net >= 0,
            kept > 0,
            u > 0,
            gross * kept <= net * e,
    ;
    assert(back >= gross - 1) by (nonlinear_arith)
        requires
            (back + 1) * u > gross * u - net,
            net < u,
            u > 0,
    ;
}

/// Moving the divisor of the curve's division by at most one moves the
/// quotient by no more than the reserves allow: down by at most one more
/// than `after / (left + 1)`, up by at most `(2 * after - 1) / (left - 1)`,
/// where `left` is what the division gave. Where `left` exceeds `after`,
/// that is one unit either way.
pub proof fn lemma_quotient_near(product: int, after: int, shift: int)
    requires
        product >= 0,
        after > 0,
        product / after >= 2,
        -1 <= shift <= 1,
    ensures
        ({
            let left = product / after;
            let quotient = product / (left - shift);
            &&& after - after / (left + 1) - 1 <= quotient <= after + (2 * after - 1) / (left - 1)
            &&& left > after ==> after - 1 <= quotient <= after + 1
            &&& 2 * after <= 5 * (left - 1) ==> after - 4 <= quotient <= after + 4
        }),
{
    let left = product / after;
    let rest = product % after;
    let d = left - shift;
    vstd::arithmetic::div_mod::lemma_fundamental_div_mod(product, after);
    vstd::arithmetic::div_mod::lemma_mod_bound(product, after);
    assert(product == after * left + rest);
    // the divisor is at least `left - 1`, and `product` over `left - 1` is
    // `after` and what `after + rest` adds
    vstd::arithmetic::div_mod::lemma_div_is_ordered_by_denominator(product, left - 1, d);
    assert(product == (after + rest) + after * (left - 1)) by (nonlinear_arith)
        requires
            product == after * left + rest,
    ;
    vstd::arithmetic::div_mod::lemma_hoist_over_denominator(after + rest, after, (left - 1) as nat);
    lemma_div_is_ordered(after + rest, 2 * after - 1, left - 1);
    // the divisor is at most `left + 1`
    vstd::arithmetic::div_mod::lemma_div_is_ordered_by_denominator(product, d, left + 1);
    let less = after / (left + 1);
    vstd::arithmetic::div_mod::lemma_fundamental_div_mod(after, left + 1);
    vstd::arithmetic::div_mod::lemma_mod_bound(after, left + 1);
    assert((after - less - 1) * (left + 1) <= product) by (nonlinear_arith)
        requires
            after == (left + 1) * less + after % (left + 1),
            after % (left + 1) < left + 1,
            product == after * left + rest,
            rest >= 0,
    ;
    lemma_div_is_ordered((after - less - 1) * (left + 1), product, left + 1);
    lemma_mul_is_commutative(after - less - 1, left + 1);
    lemma_div_multiples_vanish(after - less - 1, left + 1);
    if 2 * after <= 5 * (left - 1) {
        let up = (2 * after - 1) / (left - 1);
        vstd::arithmetic::div_mod::lemma_fundamental_div_mod(2 * after - 1, left - 1);
        vstd::arithmetic::div_mod::lemma_mod_bound(2 * after - 1, left - 1);
        assert(up <= 4) by (nonlinear_arith)
            requires
                2 * after - 1 == (left - 1) * up + (2 * after - 1) % (left - 1),
                (2 * after - 1) % (left - 1) >= 0,
                2 * after - 1 < 5 * (left - 1),
                left - 1 > 0,
        ;
        assert(less <= 3) by (nonlinear_arith)
            requires
                after == (left + 1) * less + after % (left + 1),
                after % (left + 1) >= 0,
                2 * after <= 5 * (left - 1),
                left + 1 > 0,
        ;
    }
    if left > after {
        vstd::arithmetic::div_mod::lemma_basic_div(after, left + 1);
        assert(2 * after - 1 < 2 * (left - 1));
        vstd::arithmetic::div_mod::lemma_fundamental_div_mod(2 * after - 1, left - 1);
        vstd::arithmetic::div_mod::lemma_mod_bound(2 * after - 1, left - 1);
        let up = (2 * after - 1) / (left - 1);
        assert(up <= 1) by (nonlinear_arith)
            requires
                2 * after - 1 == (left - 1) * up + (2 * after - 1) % (left - 1),
                (2 * after - 1) % (left - 1) >= 0,
                2 * after - 1 < 2 * (left - 1),
                left - 1 > 0,
        ;
    }
}

/// Pricing a swap backwards from what it returned gives the offer back to
/// within what the reserves allow, for a commission of at most nine
/// fractional digits and less than half, a return of less than 10^18 units,
/// and a swap that leaves at least two units in the ask-side reserve. With
/// `after` the offer-side reserve after the swap and `left` what the curve
/// leaves in the ask-side reserve, the offer comes back at least as
/// `offer_amount - after / (left + 1) - 1` and at most as
/// `offer_amount + (2 * after - 1) / (left - 1)`. Where `left` exceeds
/// `after`, that is within one unit; where `after` is at most two and a half
/// times `left - 1`, it is within four. The backward pricing fails only
/// where the recovered offer, at the price before the trade, would buy more
/// than 128 bits hold.
pub proof fn lemma_round_trip(
    offer_pool: u128,
    ask_pool: u128,
    offer_amount: u128,
    billionths: int,
)
    requires
        0 <= billionths,
        2 * billionths < helper_unit(),
        compute_swap_outcome(
            offer_pool as int,
            ask_pool as int,
            offer_amount as int,
            rate_of_billionths(billionths),
        ) matches Ok(quote) && quote.return_amount < unit(),
        offer_pool * ask_pool / (offer_pool + offer_amount) >= 2,
    ensures
        ({
            let rate = rate_of_billionths(billionths);
            let quote = compute_swap_outcome(
                offer_pool as int,
                ask_pool as int,
                offer_amount as int,
                rate,
            ).unwrap();
            let after = offer_pool + offer_amount;
            let left = offer_pool * ask_pool / after;
            match compute_offer_amount_outcome(
                offer_pool as int,
                ask_pool as int,
                quote.return_amount as int,
                rate,
            ) {
                Ok((offer, _, _)) => {
                    &&& offer_amount - after / (left + 1) - 1 <= offer <= offer_amount + (2 * after
                        - 1) / (left - 1)
                    &&& left > after ==> offer_amount - 1 <= offer <= offer_amount + 1
                    &&& 2 * after <= 5 * (left - 1) ==> offer_amount - 4 <= offer <= offer_amount
                        + 4
                },
                Err(e) => e == ContractError::Overflow && ideal_return(
                    offer_pool as int,
                    ask_pool as int,
                    required_offer(
                        offer_pool as int,
                        ask_pool as int,
                        before_commission(quote.return_amount as int, rate),
                    ),
                ) > u128::MAX,
            }
        }),
{
    let rate = rate_of_billionths(billionths);
    let product = offer_pool * ask_pool;
    let after = offer_pool + offer_amount;
    let left = product / after;
    let gross = gross_return(offer_pool as int, ask_pool as int, offer_amount as int);
    lemma_gross_return_bounds(offer_pool as int, ask_pool as int, offer_amount as int);
    lemma_net_return_rounds_up(gross, billionths);
    lemma_gross_up_recovers(gross, billionths);
    let net = gross - commission_of(gross, rate);
    let back = before_commission(net, rate);
    let shift = back - gross;
    lemma_mul_nonnegative(offer_pool as int, ask_pool as int);
    lemma_quotient_near(product, after, shift);
    assert(ask_pool - back == left - shift);
    assert(rate.atomics == billionths * helper_unit()) by (nonlinear_arith)
        requires
            0 <= billionths < 1_000_000_000,
            helper_unit() == 1_000_000_000,
            rate.atomics == (billionths * helper_unit()) as u128,
    ;
    assert(to_helper(rate) == billionths) by {
        lemma_mul_is_commutative(billionths, helper_unit());
        lemma_div_multiples_vanish(billionths, helper_unit());
    }
    assert(net_share(rate) > 0);
    let quote = compute_swap_outcome(
        offer_pool as int,
        ask_pool as int,
        offer_amount as int,
        rate,
    ).unwrap();
    assert(quote.return_amount == net);
    assert(0 <= back < ask_pool);
    lemma_required_offer_nonnegative(offer_pool as int, ask_pool as int, back);
    let offer = required_offer(offer_pool as int, ask_pool as int, back);
    assert(offer == product / (left - shift) - offer_pool);
    assert(0 <= offer);
    assert(offer <= product);
    lemma_commission_within_return(back, rate);
}

/// A commission at a rate of at most one is at most the amount it is
/// taken from.
pub proof fn lemma_commission_within_return(gross: int, rate: Decimal)
    requires
        gross >= 0,
        rate.atomics <= unit(),
    ensures
        0 <= commission_of(gross, rate) <= gross,
{
    lemma_mul_nonnegative(gross, rate.atomics as int);
    assert(gross * rate.atomics <= gross * unit()) by (nonlinear_arith)
        requires
            gross >= 0,
            rate.atomics <= unit(),
    ;
    lemma_div_is_ordered(gross * rate.atomics, gross * unit(), unit());
    lemma_mul_is_commutative(gross, unit());
    lemma_div_multiples_vanish(gross, unit());
    lemma_div_pos_is_pos(gross * rate.atomics, unit());
}

/// At a commission of at most one, a swap fails only against an empty offer
/// pool or for want of room, and what it charges and pays never exceeds what
/// the curve released.
pub proof fn lemma_swap_failures(offer_pool: u128, ask_pool: u128, offer_amount: u128, rate: Decimal)
    requires
        rate.atomics <= unit(),
    ensures
        match compute_swap_outcome(offer_pool as int, ask_pool as int, offer_amount as int, rate) {
            Ok(quote) => quote.return_amount + quote.commission_amount == gross_return(
                offer_pool as int,
                ask_pool as int,
                offer_amount as int,
            ) && quote.return_amount + quote.commission_amount <= ask_pool,
            Err(e) => if offer_pool == 0 {
                e == ContractError::DivideByZero
            } else {
                e == ContractError::Overflow
            },
        },
{
    if offer_pool > 0 {
        lemma_gross_return_bounds(offer_pool as int, ask_pool as int, offer_amount as int);
        lemma_commission_within_return(
            gross_return(offer_pool as int, ask_pool as int, offer_amount as int),
            rate,
        );
    }
}

/// A completed swap keeps the product of the reserves, but for what the
/// rounding of one division can take: the product after the swap falls
/// short of the product before it by less than the offer-side reserve after
/// the swap. The commission stays in the ask-side reserve.
pub proof fn lemma_product_kept(offer_pool: u128, ask_pool: u128, offer_amount: u128, rate: Decimal)
    requires
        compute_swap_outcome(offer_pool as int, ask_pool as int, offer_amount as int, rate) is Ok,
    ensures
        ({
            let quote = compute_swap_outcome(
                offer_pool as int,
                ask_pool as int,
                offer_amount as int,
                rate,
            ).unwrap();
            (offer_pool + offer_amount) * (ask_pool - quote.return_amount) > offer_pool * ask_pool
                - (offer_pool + offer_amount)
        }),
{
    let product = offer_pool * ask_pool;
    let after = offer_pool + offer_amount;
    let kept = product / after;
    let rest = product % after;
    let gross = gross_return(offer_pool as int, ask_pool as int, offer_amount as int);
    let commission = commission_of(gross, rate);
    lemma_gross_return_bounds(offer_pool as int, ask_pool as int, offer_amount as int);
    vstd::arithmetic::div_mod::lemma_fundamental_div_mod(product, after);
    vstd::arithmetic::div_mod::lemma_mod_bound(product, after);
    lemma_mul_nonnegative(gross, rate.atomics as int);
    lemma_div_pos_is_pos(gross * rate.atomics, unit());
    assert(after * (kept + commission) >= after * kept) by (nonlinear_arith)
        requires
            after > 0,
            commission >= 0,
    ;
}

} // verus!
