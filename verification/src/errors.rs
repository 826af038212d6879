//! Errors reported by the library.
use vstd::prelude::*;

use crate::marketindex::MarketIndex;
use crate::quote::Level;
use crate::cashflows::AssetClass;

verus! {

/// Errors of the library, one variant per failure that a caller can observe.
#[derive(Clone, Debug, PartialEq)]
pub enum QSError {
    /// A currency code that names no known currency.
    UnknownCurrency,
    /// A textual market index that names no known index.
    UnknownMarketIndex,
    /// A strike type other than `Absolute` or `Relative`.
    UnknownStrikeType,
    /// An option strategy name that is not recognised.
    UnknownOptionStrategy,
    /// The requested quote level (mid, bid or ask) is not available.
    MissingQuoteLevel(Level),
    /// No quote with the given identifier could be selected.
    QuoteNotFound(String),
    /// The calibration instruments of the curve have not been constructed.
    CurveNotResolved(MarketIndex),
    /// The curve configuration has not been resolved yet.
    ConfigurationNotResolved,
    /// The curve has no calibration instruments.
    NoCalibrationInstruments(MarketIndex),
    /// `curve` depends on `dependency`, for which no configuration was provided.
    MissingCurveConfiguration { curve: MarketIndex, dependency: MarketIndex },
    /// The curve dependencies form a cycle.
    CircularDependency,
    /// Legs of this asset class cannot be discounted.
    UnsupportedAssetClass(AssetClass),
    /// The leg carries no index from which to discount it.
    MissingDiscountIndex,
    /// The instrument has no pillar date (unsupported in bootstrapping, or no cashflows).
    UnsupportedInstrument,
    /// A leg that is not linear was handed to a pricer for linear payoffs.
    NonLinearLeg(usize),
    /// No exchange rate is stored for the pair.
    MissingExchangeRate,
    /// The curve set holds no curve for this index.
    MissingCurve(MarketIndex),
    /// The leg has no disbursement from which to settle.
    MissingDisbursement,
    /// A quote identifier with fewer segments than its instrument needs.
    MalformedIdentifier,
    /// The instrument segment of a quote identifier names no known instrument.
    UnknownQuoteInstrument,
    /// A tenor that is not a number of days, weeks, months or years.
    InvalidTenor,
    /// A volatility type other than `Black` or `Normal`.
    UnknownVolatilityType,
    /// A strike that is not a number.
    InvalidStrike,
    /// A quote of an instrument that the single-curve bootstrapper does not
    /// build (only deposits and OIS swaps).
    UnsupportedBootstrapQuote,
    /// The pricer has no market-data request to send (no discount policy is set).
    MissingMarketDataRequest,
}

} // verus!
