use tfi_pair::decimal::Decimal;
use tfi_pair::decimal::DECIMAL_FRACTIONAL;
use tfi_pair::error::ContractError;
use tfi_pair::guard::assert_max_spread;
use tfi_pair::math::decimal_multiplication;
use tfi_pair::math::decimal_subtraction;
use tfi_pair::math::reverse_decimal;

#[test]
fn decimals_are_counted_in_atomics() {
    assert_eq!(Decimal::zero().atomics(), 0);
    assert!(Decimal::zero().is_zero());
    assert_eq!(Decimal::one().atomics(), DECIMAL_FRACTIONAL);
    assert_eq!(Decimal::percent(2).atomics(), 20_000_000_000_000_000);
    assert_eq!(Decimal::permille(3).atomics(), 3_000_000_000_000_000);
    assert_eq!(
        Decimal::permille(3).atomics(),
        cosmwasm_std::Decimal::permille(3).atomics().u128()
    );
}

/// The ratio of `part` to `whole`, as the spread check reports it.
fn reported_ratio(part: u128, whole: u128) -> Result<Decimal, ContractError> {
    match assert_max_spread(None, Some(Decimal::zero()), 0, whole - part, part) {
        Ok(()) => Ok(Decimal::zero()),
        Err(ContractError::MaxSpreadAssertion { spread_ratio, .. }) => Ok(spread_ratio),
        Err(other) => Err(other),
    }
}

#[test]
fn a_ratio_is_rounded_down_to_eighteen_digits() {
    assert_eq!(reported_ratio(1, 3), Ok(Decimal { atomics: 333_333_333_333_333_333 }));
    assert_eq!(reported_ratio(2, 3), Ok(Decimal { atomics: 666_666_666_666_666_666 }));
    assert_eq!(reported_ratio(5, 5), Ok(Decimal::one()));
    assert_eq!(
        reported_ratio(7, 13).unwrap().atomics(),
        cosmwasm_std::Decimal::from_ratio(7u128, 13u128).atomics().u128()
    );
    assert_eq!(reported_ratio(0, 0), Err(ContractError::DivideByZero));
}

#[test]
fn subtraction_works_at_nine_digits() {
    assert_eq!(
        decimal_subtraction(Decimal::one(), Decimal::permille(3)),
        Ok(Decimal { atomics: 997_000_000_000_000_000 })
    );
    // the tenth digit and beyond are dropped from both sides
    assert_eq!(
        decimal_subtraction(Decimal { atomics: 1_999_999_999 }, Decimal { atomics: 999_999_999 }),
        Ok(Decimal { atomics: 1_000_000_000 })
    );
    assert_eq!(
        decimal_subtraction(Decimal::permille(3), Decimal::one()),
        Err(ContractError::Underflow)
    );
    assert_eq!(decimal_subtraction(Decimal::one(), Decimal::one()), Ok(Decimal::zero()));
}

#[test]
fn multiplication_works_at_nine_digits() {
    assert_eq!(
        decimal_multiplication(Decimal::percent(50), Decimal::percent(50)),
        Ok(Decimal::percent(25))
    );
    assert_eq!(
        decimal_multiplication(Decimal { atomics: 1_999_999_999 }, Decimal::one()),
        Ok(Decimal { atomics: 1_000_000_000 })
    );
    assert_eq!(
        decimal_multiplication(Decimal { atomics: u128::MAX }, Decimal { atomics: u128::MAX }),
        Err(ContractError::Overflow)
    );
}

#[test]
fn the_inverse_works_at_nine_digits() {
    assert_eq!(reverse_decimal(Decimal::zero()), Ok(Decimal::zero()));
    assert_eq!(reverse_decimal(Decimal::one()), Ok(Decimal::one()));
    assert_eq!(reverse_decimal(Decimal::percent(50)), Ok(Decimal::percent(200)));
    assert_eq!(
        reverse_decimal(Decimal { atomics: 997_000_000_000_000_000 }),
        Ok(Decimal { atomics: 1_003_009_027_081_243_731 })
    );
    assert_eq!(
        reverse_decimal(Decimal { atomics: 999_999_999 }),
        Err(ContractError::DivideByZero)
    );
}
