use vstd::prelude::*;
use vstd::arithmetic::div_mod::lemma_div_is_ordered;
use vstd::arithmetic::div_mod::lemma_div_multiples_vanish;
use vstd::arithmetic::div_mod::lemma_div_pos_is_pos;
use vstd::arithmetic::mul::lemma_mul_is_commutative;
use vstd::arithmetic::mul::lemma_mul_nonnegative;
use vstd::string::StringExecFns;
use crate::asset::Asset;
use crate::asset::AssetInfo;
use crate::asset::Coin;
use crate::decimal::unit;
use crate::decimal::Decimal;
use crate::decimal::DECIMAL_FRACTIONAL;
use crate::error::ContractError;
use crate::math::checked_multiply_ratio;

verus! {

/// The deduction that a network makes on transfers of one native asset: a
/// rate, and a cap on what it takes from one transfer.
#[derive(Clone, Copy, Debug, PartialEq, Eq, Structural)]
pub struct TaxPolicy {
    pub rate: Decimal,
    pub cap: u128,
}

/// What is left of `amount` once a tax at `rate` is taken from it: the
/// amount divided by one plus the rate, rounded down.
pub open spec fn net_of_tax(amount: int, rate: Decimal) -> int {
    amount * unit() / (rate.atomics + unit())
}

/// The tax on a transfer of `amount`: the proportional tax or the cap,
/// whichever is less.
pub open spec fn tax_of(amount: int, policy: TaxPolicy) -> int {
    let proportional = amount - net_of_tax(amount, policy.rate);
    if proportional <= policy.cap {
        proportional
    } else {
        policy.cap as int
    }
}

/// The tax on paying `asset` out, failures included. Only a native asset
/// under a policy is taxed.
pub open spec fn compute_tax_outcome(asset: Asset, policy: Option<TaxPolicy>) -> Result<
    u128,
    ContractError,
> {
    match policy {
        Some(p) => if asset.info is Native {
            if p.rate.atomics + unit() > u128::MAX {
                Err(ContractError::Overflow)
            } else {
                Ok(tax_of(asset.amount as int, p) as u128)
            }
        } else {
            Ok(0)
        },
        None => Ok(0),
    }
}

/// The net of a tax is never more than the amount.
pub proof fn lemma_net_of_tax_bounds(amount: int, rate: Decimal)
    requires
        amount >= 0,
    ensures
        0 <= net_of_tax(amount, rate) <= amount,
{
    let d = rate.atomics + unit();
    lemma_mul_nonnegative(amount, unit());
    assert(amount * unit() <= amount * d) by (nonlinear_arith)
        requires
            amount >= 0,
            unit() <= d,
    ;
    lemma_div_is_ordered(amount * unit(), amount * d, d);
    lemma_mul_is_commutative(amount, d);
    lemma_div_multiples_vanish(amount, d);
    lemma_div_pos_is_pos(amount * unit(), d);
}

impl Asset {
    /// The tax that the network takes when this asset is paid out under
    /// `policy`.
    pub fn compute_tax(&self, policy: &Option<TaxPolicy>) -> (r: Result<u128, ContractError>)
        ensures
            r == compute_tax_outcome(*self, *policy),
            r matches Ok(tax) ==> tax <= self.amount,
    {
        let p: TaxPolicy = match policy {
            Some(p) => *p,
            None => { return Ok(0); },
        };
        if !self.info.is_native_token() {
            return Ok(0);
        }
        let divisor: u128 = match p.rate.atomics.checked_add(DECIMAL_FRACTIONAL) {
            Some(v) => v,
            None => { return Err(ContractError::Overflow); },
        };
        proof {
            lemma_net_of_tax_bounds(self.amount as int, p.rate);
        }
        let net: u128 = match checked_multiply_ratio(self.amount, DECIMAL_FRACTIONAL, divisor) {
            Ok(v) => v,
            Err(e) => { return Err(e); },
        };
        let proportional: u128 = self.amount - net;
        if proportional <= p.cap {
            Ok(proportional)
        } else {
            Ok(p.cap)
        }
    }

    /// This asset as the coin that arrives once the tax is taken. A token
    /// carries no tax and is refused.
    pub fn deduct_tax(&self, policy: &Option<TaxPolicy>) -> (r: Result<Coin, ContractError>)
        ensures
            match self.info {
                AssetInfo::Native(denom) => match compute_tax_outcome(*self, *policy) {
                    Ok(tax) => r == Ok::<Coin, ContractError>(
                        Coin { denom, amount: (self.amount - tax) as u128 },
                    ),
                    Err(e) => r == Err::<Coin, ContractError>(e),
                },
                AssetInfo::Token(_) => (r matches Err(ContractError::Std(text)) && text@
                    == "cannot deduct tax from token asset"@),
            },
    {
        match &self.info {
            AssetInfo::Native(denom) => {
                let tax: u128 = match self.compute_tax(policy) {
                    Ok(v) => v,
                    Err(e) => { return Err(e); },
                };
                Ok(Coin { denom: denom.clone(), amount: self.amount - tax })
            },
            AssetInfo::Token(_) => Err(
                ContractError::Std(String::from_str("cannot deduct tax from token asset")),
            ),
        }
    }
}

} // verus!
