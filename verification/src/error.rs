//! The errors of the library.

use vstd::prelude::*;

use crate::time::Date;

verus! {

/// Why an operation of the library failed.
#[derive(Debug, PartialEq, Eq)]
pub enum Error {
    /// Two amounts of money in different currencies met in one operation.
    CurrencyMismatch,
    /// A result does not fit into a decimal.
    Overflow,
    /// A division by zero.
    DivisionByZero,
    /// A currency conversion failed; the text says why.
    ConversionFailed(String),
    /// A country that has no code in the classifier.
    UnknownCountry(String),
    /// A field of a record or of a tax statement holds an unexpected value.
    InvalidValue(String),
    /// A record lacks a field.
    MissingField(String),
    /// The configuration defines no portfolio.
    NoPortfolios,
    /// The configuration defines no portfolio of this name.
    UnknownPortfolio(String),
    /// A sell of more stocks than a position holds unsold.
    InsufficientQuantity,
    /// The calculation of a stock sell failed.
    SellCalculation { symbol: String, date: Date, cause: Box<Error> },
    /// A calculation reached a state that contradicts its input.
    Inconsistency,
    /// A trade record of an asset category that is not supported.
    UnsupportedAssetCategory(String),
    /// A forex symbol that is not a currency pair `BASE.QUOTE`.
    InvalidForexPair(String),
    /// A forex trade whose quantity and proceeds (the texts of the record) do not
    /// have opposite signs.
    UnexpectedForexValues { quantity: String, volume: String },
    /// A stock trade whose quantity (the text of the record) is not a nonzero number.
    UnexpectedTradeQuantity { symbol: String, quantity: String },
}

} // verus!
