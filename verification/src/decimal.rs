use vstd::prelude::*;

verus! {

/// The number of atomic units in one whole: ten to the eighteenth.
pub const DECIMAL_FRACTIONAL: u128 = 1_000_000_000_000_000_000u128;

/// The precision that the pair's own decimal helpers work at: ten to the ninth.
pub const HELPER_FRACTIONAL: u128 = 1_000_000_000u128;

/// `DECIMAL_FRACTIONAL` as a mathematical integer.
pub open spec fn unit() -> int {
    1_000_000_000_000_000_000
}

/// `HELPER_FRACTIONAL` as a mathematical integer.
pub open spec fn helper_unit() -> int {
    1_000_000_000
}

/// A fixed-point number with eighteen fractional digits. Its value is
/// `atomics / 10^18`.
#[derive(Clone, Copy, Debug, PartialEq, Eq, Structural)]
pub struct Decimal {
    pub atomics: u128,
}

impl Decimal {
    pub fn zero() -> (r: Decimal)
        ensures
            r.atomics == 0,
    {
        Decimal { atomics: 0 }
    }

    pub fn one() -> (r: Decimal)
        ensures
            r.atomics == unit(),
    {
        Decimal { atomics: DECIMAL_FRACTIONAL }
    }

    /// `x` hundredths.
    pub fn percent(x: u64) -> (r: Decimal)
        ensures
            r.atomics == x * 10_000_000_000_000_000,
    {
        let wide: u128 = x as u128;
        Decimal { atomics: wide * 10_000_000_000_000_000u128 }
    }

    /// `x` thousandths.
    pub fn permille(x: u64) -> (r: Decimal)
        ensures
            r.atomics == x * 1_000_000_000_000_000,
    {
        let wide: u128 = x as u128;
        Decimal { atomics: wide * 1_000_000_000_000_000u128 }
    }

    pub fn is_zero(&self) -> (r: bool)
        ensures
            r == (self.atomics == 0),
    {
        self.atomics == 0
    }

    pub fn atomics(&self) -> (r: u128)
        ensures
            r == self.atomics,
    {
        self.atomics
    }
}

} // verus!
