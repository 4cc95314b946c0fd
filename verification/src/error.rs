use vstd::prelude::*;
use crate::decimal::Decimal;

verus! {

/// Every way an operation of the pair can fail. An error aborts the whole
/// operation; nothing is retried.
#[derive(Clone, Debug, PartialEq, Eq)]
pub enum ContractError {
    /// A division whose divisor is zero, such as pricing against an empty pool.
    DivideByZero,
    /// A result that does not fit in 128 bits.
    Overflow,
    /// A subtraction that would go below zero.
    Underflow,
    /// A general failure with its message.
    Std(String),
    Unauthorized,
    InvalidZeroAmount,
    MaxSpreadAssertion { spread_ratio: Decimal, max_spread: Decimal },
    MaxSlippageAssertion { deposits_ratio: Decimal, pools_ratio: Decimal, slippage_tolerance: Decimal },
    /// The named asset is not one of the pair's two.
    AssetMismatch(String),
    MessageFailure(String),
    MissingData,
    InvalidAddressLength(usize),
    InvalidCommission(Decimal),
    /// Bytes that should hold text and are not valid UTF-8.
    InvalidUtf8,
}

} // verus!
