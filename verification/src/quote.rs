//! Quotes: levels, instrument kinds, option strategies and strike conventions.
use vstd::prelude::*;

use crate::currency::Currency;
use crate::errors::QSError;
use crate::marketindex::MarketIndex;
use crate::time::{Date, Period};
use crate::text::str_equals;

verus! {

/// Quote level enumeration.
#[derive(Clone, Copy, Debug, PartialEq, Eq, Structural)]
pub enum Level {
    /// Mid (average between Bid and Ask) price.
    Mid,
    /// Bid (buy) price.
    Bid,
    /// Ask (sell) price.
    Ask,
}

/// Represents if the strike is quoted in absolute or relative values.
#[derive(Clone, Copy, Debug, PartialEq, Eq, Structural)]
pub enum StrikeType {
    /// Absolute strike.
    Absolute,
    /// Relative (moneyness) strike.
    Relative,
}

/// The strike type named `s`, if any.
pub open spec fn strike_type_named(s: Seq<char>) -> Option<StrikeType> {
    if s == "Absolute"@ {
        Some(StrikeType::Absolute)
    } else if s == "Relative"@ {
        Some(StrikeType::Relative)
    } else {
        None
    }
}

impl StrikeType {
    /// Parses `Absolute` or `Relative`.
    pub fn parse(s: &str) -> (r: Result<StrikeType, QSError>)
        ensures
            s@ == "Absolute"@ ==> r == Ok::<StrikeType, QSError>(StrikeType::Absolute),
            s@ == "Relative"@ ==> r == Ok::<StrikeType, QSError>(StrikeType::Relative),
            s@ != "Absolute"@ && s@ != "Relative"@ ==> r == Err::<StrikeType, QSError>(QSError::UnknownStrikeType),
    {
        proof {
            reveal_strlit("Absolute");
            reveal_strlit("Relative");
            assert("Absolute"@[0] != "Relative"@[0]);
        }
        if str_equals(s, "Absolute") {
            Ok(StrikeType::Absolute)
        } else if str_equals(s, "Relative") {
            Ok(StrikeType::Relative)
        } else {
            Err(QSError::UnknownStrikeType)
        }
    }
}

/// Represents the type of instruments that can be handled by the quoting system.
#[derive(Clone, Copy, Debug, PartialEq, Eq, Structural)]
pub enum QuoteInstrument {
    /// Deposit instrument.
    FixedRateDeposit,
    /// Basis swap instrument.
    BasisSwap,
    /// OIS swap instrument.
    OIS,
    /// Call option.
    Call,
    /// Put option.
    Put,
    /// Cross currency swap instrument (fixed vs floating).
    CrossCurrencySwap,
    /// Forward points.
    ForwardPoints,
    /// Outright forward instrument.
    OutrightForward,
    /// Future instrument.
    Future,
    /// Convexity adjustment.
    ConvexityAdjustment,
    /// Caplet or floorlet instrument.
    CapletFloorlet,
    /// Swaption instrument.
    Swaption,
    /// Cap/Floor (requires stripping).
    CapFloor,
}

/// Represents the strategy for which the volatility quotes.
#[derive(Clone, Copy, Debug, PartialEq, Eq, Structural)]
pub enum OptionStrategy {
    /// Straddle strategy.
    Straddle,
    /// Strangle strategy.
    Strangle,
    /// Risk reversal strategy.
    RiskReversal,
    /// Butterfly strategy.
    Butterfly,
}

/// The strategy named `s`, if any.
pub open spec fn option_strategy_named(s: Seq<char>) -> Option<OptionStrategy> {
    if s == "Straddle"@ {
        Some(OptionStrategy::Straddle)
    } else if s == "Strangle"@ {
        Some(OptionStrategy::Strangle)
    } else if s == "RiskReversal"@ {
        Some(OptionStrategy::RiskReversal)
    } else if s == "Butterfly"@ {
        Some(OptionStrategy::Butterfly)
    } else {
        None
    }
}

impl OptionStrategy {
    /// Parses the name of a strategy.
    pub fn parse(s: &str) -> (r: Result<OptionStrategy, QSError>)
        ensures
            option_strategy_named(s@) matches Some(k) ==> r == Ok::<OptionStrategy, QSError>(k),
            option_strategy_named(s@) is None ==> r == Err::<OptionStrategy, QSError>(QSError::UnknownOptionStrategy),
    {
        if str_equals(s, "Straddle") {
            Ok(OptionStrategy::Straddle)
        } else if str_equals(s, "Strangle") {
            Ok(OptionStrategy::Strangle)
        } else if str_equals(s, "RiskReversal") {
            Ok(OptionStrategy::RiskReversal)
        } else if str_equals(s, "Butterfly") {
            Ok(OptionStrategy::Butterfly)
        } else {
            Err(QSError::UnknownOptionStrategy)
        }
    }
}

/// The quote value at `level`, if that level is quoted.
pub open spec fn level_value<T>(mid: Option<T>, bid: Option<T>, ask: Option<T>, level: Level) -> Option<T> {
    match level {
        Level::Mid => mid,
        Level::Bid => bid,
        Level::Ask => ask,
    }
}

/// Each strike type, strategy and volatility type is read from its own name.
pub proof fn lemma_quote_names()
    ensures
        strike_type_named("Absolute"@) == Some(StrikeType::Absolute),
        strike_type_named("Relative"@) == Some(StrikeType::Relative),
        option_strategy_named("Straddle"@) == Some(OptionStrategy::Straddle),
        option_strategy_named("Strangle"@) == Some(OptionStrategy::Strangle),
        option_strategy_named("RiskReversal"@) == Some(OptionStrategy::RiskReversal),
        option_strategy_named("Butterfly"@) == Some(OptionStrategy::Butterfly),
        vol_type_named("Black"@) == Some(VolatilityType::Black),
        vol_type_named("Normal"@) == Some(VolatilityType::Normal),
{
    reveal_strlit("Absolute");
    reveal_strlit("Relative");
    reveal_strlit("Straddle");
    reveal_strlit("Strangle");
    reveal_strlit("RiskReversal");
    reveal_strlit("Butterfly");
    reveal_strlit("Black");
    reveal_strlit("Normal");
    assert("Absolute"@[0] != "Relative"@[0]);
    assert("Straddle"@[4] != "Strangle"@[4]);
    assert("Straddle"@[0] != "RiskReversal"@[0]);
    assert("Straddle"@[0] != "Butterfly"@[0]);
    assert("Strangle"@[0] != "RiskReversal"@[0]);
    assert("Strangle"@[0] != "Butterfly"@[0]);
    assert("RiskReversal"@[0] != "Butterfly"@[0]);
    assert("Black"@[0] != "Normal"@[0]);
}

/// The value of a quote at a level is the value quoted at that level: the
/// mid at `Mid`, the bid at `Bid`, the ask at `Ask`.
pub proof fn lemma_level_values<T>(mid: Option<T>, bid: Option<T>, ask: Option<T>)
    ensures
        level_value(mid, bid, ask, Level::Mid) == mid,
        level_value(mid, bid, ask, Level::Bid) == bid,
        level_value(mid, bid, ask, Level::Ask) == ask,
{
}

/// Quote levels (mid, bid, ask) associated with an instrument identifier.
/// `T` is the numeric type of the levels.
#[derive(Clone, Copy, Debug, PartialEq)]
pub struct QuoteLevels<T> {
    pub mid: Option<T>,
    pub bid: Option<T>,
    pub ask: Option<T>,
}

/// A quote as recorded for loading: its identifier, which carries the
/// quote's details, and its levels.
#[derive(Clone, Debug)]
pub struct QuoteRecord<T> {
    pub instrument: String,
    pub levels: QuoteLevels<T>,
}

impl<T: Copy> QuoteLevels<T> {
    /// Creates quote levels from optional values.
    pub fn new(mid: Option<T>, bid: Option<T>, ask: Option<T>) -> (r: QuoteLevels<T>)
        ensures
            r == (QuoteLevels { mid, bid, ask }),
    {
        QuoteLevels { mid, bid, ask }
    }

    /// Creates quote levels with only a mid value.
    pub fn with_mid(mid: T) -> (r: QuoteLevels<T>)
        ensures
            r == (QuoteLevels::<T> { mid: Some(mid), bid: None, ask: None }),
    {
        QuoteLevels { mid: Some(mid), bid: None, ask: None }
    }

    /// Returns the mid quote if available.
    pub fn mid(&self) -> (r: Option<T>)
        ensures
            r == self.mid,
    {
        self.mid
    }

    /// Returns the bid quote if available.
    pub fn bid(&self) -> (r: Option<T>)
        ensures
            r == self.bid,
    {
        self.bid
    }

    /// Returns the ask quote if available.
    pub fn ask(&self) -> (r: Option<T>)
        ensures
            r == self.ask,
    {
        self.ask
    }

    /// The quote value at the requested level; an error if that level is not quoted.
    pub fn value(&self, level: Level) -> (r: Result<T, QSError>)
        ensures
            level_value(self.mid, self.bid, self.ask, level) matches Some(v) ==> r == Ok::<T, QSError>(v),
            level_value(self.mid, self.bid, self.ask, level) is None ==> r == Err::<T, QSError>(QSError::MissingQuoteLevel(level)),
    {
        let v = match level {
            Level::Mid => self.mid,
            Level::Bid => self.bid,
            Level::Ask => self.ask,
        };
        match v {
            Some(x) => Ok(x),
            None => Err(QSError::MissingQuoteLevel(level)),
        }
    }
}

} // verus!

verus! {

/// Volatility quoting conventions.
#[derive(Clone, Copy, Debug, PartialEq, Eq, Structural)]
pub enum VolatilityType {
    /// Lognormal (Black) volatility.
    Black,
    /// Normal (Bachelier) volatility.
    Normal,
}

/// The volatility type named `s`, if any.
pub open spec fn vol_type_named(s: Seq<char>) -> Option<VolatilityType> {
    if s == "Black"@ {
        Some(VolatilityType::Black)
    } else if s == "Normal"@ {
        Some(VolatilityType::Normal)
    } else {
        None
    }
}

impl VolatilityType {
    /// Parses `Black` or `Normal`.
    pub fn parse(s: &str) -> (r: Result<VolatilityType, QSError>)
        ensures
            vol_type_named(s@) matches Some(v) ==> r == Ok::<VolatilityType, QSError>(v),
            vol_type_named(s@) is None ==> r == Err::<VolatilityType, QSError>(QSError::UnknownVolatilityType),
    {
        if str_equals(s, "Black") {
            Ok(VolatilityType::Black)
        } else if str_equals(s, "Normal") {
            Ok(VolatilityType::Normal)
        } else {
            Err(QSError::UnknownVolatilityType)
        }
    }
}

/// All details related to a particular quote. `T` is the numeric type of
/// rates, prices, strikes and shifts.
#[derive(Clone, Debug)]
pub struct QuoteDetails<T> {
    /// The quote identifier.
    pub identifier: String,
    /// The instrument type.
    pub instrument: QuoteInstrument,
    /// The primary market index.
    pub market_index: Option<MarketIndex>,
    /// The option strategy.
    pub strategy: Option<OptionStrategy>,
    /// The volatility convention.
    pub vol_type: Option<VolatilityType>,
    /// The quoted rate.
    pub rate: Option<T>,
    /// The quoted price.
    pub price: Option<T>,
    /// The coupon rate.
    pub coupon_rate: Option<T>,
    /// The pay-leg currency.
    pub pay_currency: Option<Currency>,
    /// The receive-leg currency.
    pub receive_currency: Option<Currency>,
    /// The strike.
    pub strike: Option<T>,
    /// Whether the strike is absolute or relative.
    pub strike_type: Option<StrikeType>,
    /// The maturity date.
    pub maturity: Option<Date>,
    /// The tenor.
    pub tenor: Option<Period>,
    /// The volatility shift.
    pub vol_shift: Option<T>,
    /// The primary instrument currency.
    pub currency: Option<Currency>,
    /// The secondary market index (e.g. the receive-leg index of a basis swap).
    pub secondary_market_index: Option<MarketIndex>,
    /// The option expiry tenor (swaptions, caplets).
    pub option_expiry: Option<Period>,
    /// The futures / convexity-adjustment IMM contract code (e.g. "H6").
    pub contract_code: Option<String>,
    /// The underlying index tenor (caplet/floorlet frequency).
    pub index_tenor: Option<Period>,
}

impl<T: Copy> QuoteDetails<T> {
    /// Creates quote details with the identifier and instrument type; every other detail is unset.
    pub fn new(identifier: String, instrument: QuoteInstrument) -> (r: QuoteDetails<T>)
        ensures
            r.identifier@ == identifier@,
            r.instrument == instrument,
            r.market_index is None,
            r.strategy is None,
            r.vol_type is None,
            r.rate is None,
            r.price is None,
            r.coupon_rate is None,
            r.pay_currency is None,
            r.receive_currency is None,
            r.strike is None,
            r.strike_type is None,
            r.maturity is None,
            r.tenor is None,
            r.vol_shift is None,
            r.currency is None,
            r.secondary_market_index is None,
            r.option_expiry is None,
            r.contract_code is None,
            r.index_tenor is None,
    {
        QuoteDetails {
            identifier,
            instrument,
            market_index: None,
            strategy: None,
            vol_type: None,
            rate: None,
            price: None,
            coupon_rate: None,
            pay_currency: None,
            receive_currency: None,
            strike: None,
            strike_type: None,
            maturity: None,
            tenor: None,
            vol_shift: None,
            currency: None,
            secondary_market_index: None,
            option_expiry: None,
            contract_code: None,
            index_tenor: None,
        }
    }

    /// Returns the quote identifier.
    pub fn identifier(&self) -> (r: String)
        ensures
            r@ == self.identifier@,
    {
        self.identifier.clone()
    }

    /// Returns the instrument type.
    pub fn instrument(&self) -> (r: &QuoteInstrument)
        ensures
            *r == self.instrument,
    {
        &self.instrument
    }

    /// Returns the primary market index.
    pub fn market_index(&self) -> (r: Option<&MarketIndex>)
        ensures
            r is Some <==> self.market_index is Some,
            r matches Some(x) ==> self.market_index == Some(*x),
    {
        self.market_index.as_ref()
    }

    /// Returns the volatility type, if present.
    pub fn vol_type(&self) -> (r: Option<&VolatilityType>)
        ensures
            r is Some <==> self.vol_type is Some,
            r matches Some(x) ==> self.vol_type == Some(*x),
    {
        self.vol_type.as_ref()
    }

    /// Returns the secondary market index, if present.
    pub fn secondary_market_index(&self) -> (r: Option<&MarketIndex>)
        ensures
            r is Some <==> self.secondary_market_index is Some,
            r matches Some(x) ==> self.secondary_market_index == Some(*x),
    {
        self.secondary_market_index.as_ref()
    }

    /// Returns the contract code, if present.
    pub fn contract_code(&self) -> (r: Option<&str>)
        ensures
            r is Some <==> self.contract_code is Some,
            r matches Some(x) ==> x@ == self.contract_code.unwrap()@,
    {
        match &self.contract_code {
            Some(c) => Some(c.as_str()),
            None => None,
        }
    }

    /// Returns the option strategy, if present.
    pub fn strategy(&self) -> (r: Option<OptionStrategy>)
        ensures
            r == self.strategy,
    {
        self.strategy
    }

    /// Returns the quoted rate, if present.
    pub fn rate(&self) -> (r: Option<T>)
        ensures
            r == self.rate,
    {
        self.rate
    }

    /// Returns the quoted price, if present.
    pub fn price(&self) -> (r: Option<T>)
        ensures
            r == self.price,
    {
        self.price
    }

    /// Returns the coupon rate, if present.
    pub fn coupon_rate(&self) -> (r: Option<T>)
        ensures
            r == self.coupon_rate,
    {
        self.coupon_rate
    }

    /// Returns the pay-leg currency, if present.
    pub fn pay_currency(&self) -> (r: Option<Currency>)
        ensures
            r == self.pay_currency,
    {
        self.pay_currency
    }

    /// Returns the receive-leg currency, if present.
    pub fn receive_currency(&self) -> (r: Option<Currency>)
        ensures
            r == self.receive_currency,
    {
        self.receive_currency
    }

    /// Returns the strike, if present.
    pub fn strike(&self) -> (r: Option<T>)
        ensures
            r == self.strike,
    {
        self.strike
    }

    /// Returns whether the strike is absolute or relative, if present.
    pub fn strike_type(&self) -> (r: Option<StrikeType>)
        ensures
            r == self.strike_type,
    {
        self.strike_type
    }

    /// Returns the volatility shift, if present.
    pub fn shift(&self) -> (r: Option<T>)
        ensures
            r == self.vol_shift,
    {
        self.vol_shift
    }

    /// Returns the maturity date, if present.
    pub fn maturity(&self) -> (r: Option<Date>)
        ensures
            r == self.maturity,
    {
        self.maturity
    }

    /// Returns the tenor, if present.
    pub fn tenor(&self) -> (r: Option<Period>)
        ensures
            r == self.tenor,
    {
        self.tenor
    }

    /// Returns the primary instrument currency, if present.
    pub fn currency(&self) -> (r: Option<Currency>)
        ensures
            r == self.currency,
    {
        self.currency
    }

    /// Returns the option expiry tenor (swaptions, caplets), if present.
    pub fn option_expiry(&self) -> (r: Option<Period>)
        ensures
            r == self.option_expiry,
    {
        self.option_expiry
    }

    /// Returns the underlying index tenor (caplet/floorlet frequency), if present.
    pub fn index_tenor(&self) -> (r: Option<Period>)
        ensures
            r == self.index_tenor,
    {
        self.index_tenor
    }

    /// Sets the option strategy.
    pub fn with_strategy(self, value: OptionStrategy) -> (r: QuoteDetails<T>)
        ensures
            r == (QuoteDetails { strategy: Some(value), ..self }),
    {
        QuoteDetails { strategy: Some(value), ..self }
    }

    /// Sets the volatility convention.
    pub fn with_vol_type(self, value: VolatilityType) -> (r: QuoteDetails<T>)
        ensures
            r == (QuoteDetails { vol_type: Some(value), ..self }),
    {
        QuoteDetails { vol_type: Some(value), ..self }
    }

    /// Sets the quoted rate.
    pub fn with_rate(self, value: T) -> (r: QuoteDetails<T>)
        ensures
            r == (QuoteDetails { rate: Some(value), ..self }),
    {
        QuoteDetails { rate: Some(value), ..self }
    }

    /// Sets the quoted price.
    pub fn with_price(self, value: T) -> (r: QuoteDetails<T>)
        ensures
            r == (QuoteDetails { price: Some(value), ..self }),
    {
        QuoteDetails { price: Some(value), ..self }
    }

    /// Sets the coupon rate.
    pub fn with_coupon_rate(self, value: T) -> (r: QuoteDetails<T>)
        ensures
            r == (QuoteDetails { coupon_rate: Some(value), ..self }),
    {
        QuoteDetails { coupon_rate: Some(value), ..self }
    }

    /// Sets the pay-leg currency.
    pub fn with_pay_currency(self, value: Currency) -> (r: QuoteDetails<T>)
        ensures
            r == (QuoteDetails { pay_currency: Some(value), ..self }),
    {
        QuoteDetails { pay_currency: Some(value), ..self }
    }

    /// Sets the receive-leg currency.
    pub fn with_receive_currency(self, value: Currency) -> (r: QuoteDetails<T>)
        ensures
            r == (QuoteDetails { receive_currency: Some(value), ..self }),
    {
        QuoteDetails { receive_currency: Some(value), ..self }
    }

    /// Sets the strike.
    pub fn with_strike(self, value: T) -> (r: QuoteDetails<T>)
        ensures
            r == (QuoteDetails { strike: Some(value), ..self }),
    {
        QuoteDetails { strike: Some(value), ..self }
    }

    /// Sets whether the strike is absolute or relative.
    pub fn with_strike_type(self, value: StrikeType) -> (r: QuoteDetails<T>)
        ensures
            r == (QuoteDetails { strike_type: Some(value), ..self }),
    {
        QuoteDetails { strike_type: Some(value), ..self }
    }

    /// Sets the maturity date.
    pub fn with_maturity(self, value: Date) -> (r: QuoteDetails<T>)
        ensures
            r == (QuoteDetails { maturity: Some(value), ..self }),
    {
        QuoteDetails { maturity: Some(value), ..self }
    }

    /// Sets the tenor.
    pub fn with_tenor(self, value: Period) -> (r: QuoteDetails<T>)
        ensures
            r == (QuoteDetails { tenor: Some(value), ..self }),
    {
        QuoteDetails { tenor: Some(value), ..self }
    }

    /// Sets the volatility shift.
    pub fn with_vol_shift(self, value: T) -> (r: QuoteDetails<T>)
        ensures
            r == (QuoteDetails { vol_shift: Some(value), ..self }),
    {
        QuoteDetails { vol_shift: Some(value), ..self }
    }

    /// Sets the primary instrument currency.
    pub fn with_currency(self, value: Currency) -> (r: QuoteDetails<T>)
        ensures
            r == (QuoteDetails { currency: Some(value), ..self }),
    {
        QuoteDetails { currency: Some(value), ..self }
    }

    /// Sets the secondary market index (e.g. the receive-leg index of a basis swap).
    pub fn with_secondary_market_index(self, value: MarketIndex) -> (r: QuoteDetails<T>)
        ensures
            r == (QuoteDetails { secondary_market_index: Some(value), ..self }),
    {
        QuoteDetails { secondary_market_index: Some(value), ..self }
    }

    /// Sets the option expiry tenor (swaptions, caplets).
    pub fn with_option_expiry(self, value: Period) -> (r: QuoteDetails<T>)
        ensures
            r == (QuoteDetails { option_expiry: Some(value), ..self }),
    {
        QuoteDetails { option_expiry: Some(value), ..self }
    }

    /// Sets the futures / convexity-adjustment IMM contract code (e.g. "H6").
    pub fn with_contract_code(self, value: String) -> (r: QuoteDetails<T>)
        ensures
            r == (QuoteDetails { contract_code: Some(value), ..self }),
    {
        QuoteDetails { contract_code: Some(value), ..self }
    }

    /// Sets the underlying index tenor (caplet/floorlet frequency).
    pub fn with_index_tenor(self, value: Period) -> (r: QuoteDetails<T>)
        ensures
            r == (QuoteDetails { index_tenor: Some(value), ..self }),
    {
        QuoteDetails { index_tenor: Some(value), ..self }
    }

    /// Sets the primary market index.
    pub fn with_market_index(self, value: MarketIndex) -> (r: QuoteDetails<T>)
        ensures
            r == (QuoteDetails { market_index: Some(value), ..self }),
    {
        QuoteDetails { market_index: Some(value), ..self }
    }
}


impl<T: Copy> QuoteDetails<T> {
    /// A copy of the details, equal to them.
    pub fn duplicate(&self) -> (r: QuoteDetails<T>)
        ensures
            r == *self,
    {
        let market_index = match &self.market_index {
            Some(i) => Some(i.duplicate()),
            None => None,
        };
        let secondary_market_index = match &self.secondary_market_index {
            Some(i) => Some(i.duplicate()),
            None => None,
        };
        let contract_code = match &self.contract_code {
            Some(c) => Some(c.clone()),
            None => None,
        };
        QuoteDetails {
            identifier: self.identifier.clone(),
            instrument: self.instrument,
            market_index,
            strategy: self.strategy,
            vol_type: self.vol_type,
            rate: self.rate,
            price: self.price,
            coupon_rate: self.coupon_rate,
            pay_currency: self.pay_currency,
            receive_currency: self.receive_currency,
            strike: self.strike,
            strike_type: self.strike_type,
            maturity: self.maturity,
            tenor: self.tenor,
            vol_shift: self.vol_shift,
            currency: self.currency,
            secondary_market_index,
            option_expiry: self.option_expiry,
            contract_code,
            index_tenor: self.index_tenor,
        }
    }
}

/// A quote: its details and its levels.
#[derive(Clone, Debug)]
pub struct Quote<T> {
    pub details: QuoteDetails<T>,
    pub levels: QuoteLevels<T>,
}

impl<T: Copy> Quote<T> {
    /// Creates a new quote.
    pub fn new(details: QuoteDetails<T>, levels: QuoteLevels<T>) -> (r: Quote<T>)
        ensures
            r.details == details,
            r.levels == levels,
    {
        Quote { details, levels }
    }

    /// Returns the quote details.
    pub fn details(&self) -> (r: &QuoteDetails<T>)
        ensures
            *r == self.details,
    {
        &self.details
    }

    /// Returns the quote levels.
    pub fn levels(&self) -> (r: &QuoteLevels<T>)
        ensures
            *r == self.levels,
    {
        &self.levels
    }

    /// A copy of the quote, equal to it.
    pub fn duplicate(&self) -> (r: Quote<T>)
        ensures
            r == *self,
    {
        Quote { details: self.details.duplicate(), levels: self.levels }
    }
}

} // verus!
