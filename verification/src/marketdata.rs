//! Market-data requests a pricer issues, and the store of FX spot rates.
use vstd::prelude::*;

use crate::currency::Currency;
use crate::errors::QSError;
use crate::marketindex::{IndexKey, MarketIndex};
use crate::time::Date;

verus! {

/// A request for a market object constructed from quotes.
#[derive(Clone, Debug)]
pub enum ConstructedElementRequest {
    DiscountCurve { market_index: MarketIndex },
    DividendCurve { market_index: MarketIndex },
    VolatilitySurface { market_index: MarketIndex },
}

/// The value of a [`ConstructedElementRequest`].
pub enum ElementRequestKey {
    DiscountCurve(IndexKey),
    DividendCurve(IndexKey),
    VolatilitySurface(IndexKey),
}

impl View for ConstructedElementRequest {
    type V = ElementRequestKey;

    open spec fn view(&self) -> ElementRequestKey {
        match self {
            ConstructedElementRequest::DiscountCurve { market_index } => ElementRequestKey::DiscountCurve(market_index@),
            ConstructedElementRequest::DividendCurve { market_index } => ElementRequestKey::DividendCurve(market_index@),
            ConstructedElementRequest::VolatilitySurface { market_index } => ElementRequestKey::VolatilitySurface(market_index@),
        }
    }
}

/// A request for the fixing of an index on a date.
#[derive(Clone, Debug)]
pub struct FixingRequest {
    pub market_index: MarketIndex,
    pub date: Date,
}

impl FixingRequest {
    /// Creates a fixing request.
    pub fn new(market_index: MarketIndex, date: Date) -> (r: FixingRequest)
        ensures
            r.market_index@ == market_index@,
            r.date == date,
    {
        FixingRequest { market_index, date }
    }
}

/// A request for the FX rate of a currency pair.
#[derive(Clone, Copy, Debug, PartialEq, Eq, Structural)]
pub struct FxRequest {
    pub base: Currency,
    pub quote: Currency,
}

impl FxRequest {
    /// The request for the pair `base`/`quote`.
    pub fn pair(base: Currency, quote: Currency) -> (r: FxRequest)
        ensures
            r.base == base,
            r.quote == quote,
    {
        FxRequest { base, quote }
    }
}

/// The market data a pricer needs.
#[derive(Clone, Debug)]
pub struct MarketDataRequest {
    pub fixings: Option<Vec<FixingRequest>>,
    pub fx: Option<Vec<FxRequest>>,
    pub constructed_elements: Option<Vec<ConstructedElementRequest>>,
    pub exchange_rates: bool,
}

impl MarketDataRequest {
    /// An empty request.
    pub fn empty() -> (r: MarketDataRequest)
        ensures
            r.fixings is None,
            r.fx is None,
            r.constructed_elements is None,
            !r.exchange_rates,
    {
        MarketDataRequest { fixings: None, fx: None, constructed_elements: None, exchange_rates: false }
    }

    /// The request with the given constructed elements.
    pub fn with_constructed_elements_request(self, elements: Vec<ConstructedElementRequest>) -> (r: MarketDataRequest)
        ensures
            r.constructed_elements == Some(elements),
            r.fixings == self.fixings,
            r.fx == self.fx,
            r.exchange_rates == self.exchange_rates,
    {
        MarketDataRequest { constructed_elements: Some(elements), ..self }
    }

    /// The request with the given fixings.
    pub fn with_fixings_request(self, fixings: Vec<FixingRequest>) -> (r: MarketDataRequest)
        ensures
            r.fixings == Some(fixings),
            r.constructed_elements == self.constructed_elements,
            r.fx == self.fx,
            r.exchange_rates == self.exchange_rates,
    {
        MarketDataRequest { fixings: Some(fixings), ..self }
    }

    /// The request with the given FX rates.
    pub fn with_fx_request(self, fx: Vec<FxRequest>) -> (r: MarketDataRequest)
        ensures
            r.fx == Some(fx),
            r.constructed_elements == self.constructed_elements,
            r.fixings == self.fixings,
            r.exchange_rates == self.exchange_rates,
    {
        MarketDataRequest { fx: Some(fx), ..self }
    }

    /// The request that also asks for the exchange-rate store.
    pub fn with_exchange_rates(self) -> (r: MarketDataRequest)
        ensures
            r.exchange_rates,
            r.constructed_elements == self.constructed_elements,
            r.fixings == self.fixings,
            r.fx == self.fx,
    {
        MarketDataRequest { exchange_rates: true, ..self }
    }

    /// The requested constructed elements, if any.
    pub fn constructed_elements_request(&self) -> (r: Option<&Vec<ConstructedElementRequest>>)
        ensures
            r is Some <==> self.constructed_elements is Some,
            r matches Some(v) ==> self.constructed_elements == Some(*v),
    {
        self.constructed_elements.as_ref()
    }

    /// The requested FX rates, if any.
    pub fn fx_request(&self) -> (r: Option<&Vec<FxRequest>>)
        ensures
            r is Some <==> self.fx is Some,
            r matches Some(v) ==> self.fx == Some(*v),
    {
        self.fx.as_ref()
    }
}

impl Default for MarketDataRequest {
    fn default() -> (r: MarketDataRequest)
        ensures
            r.fixings is None,
            r.fx is None,
            r.constructed_elements is None,
            !r.exchange_rates,
    {
        MarketDataRequest::empty()
    }
}

/// The FX rate of `base`/`quote` held by `rates`, if any.
pub open spec fn stored_rate<T>(rates: Seq<(Currency, Currency, T)>, base: Currency, quote: Currency) -> Option<T>
    decreases rates.len(),
{
    if rates.len() == 0 {
        None
    } else if rates.last().0 == base && rates.last().1 == quote {
        Some(rates.last().2)
    } else {
        stored_rate(rates.drop_last(), base, quote)
    }
}

/// The rate of a pair is the one registered last for that pair: registering
/// a rate makes it the rate of its pair and leaves every other pair's rate as
/// it was; a rate is found exactly when one was registered for the pair.
pub proof fn lemma_rate_after_add<T>(rates: Seq<(Currency, Currency, T)>, base: Currency, quote: Currency, rate: T, b: Currency, q: Currency)
    ensures
        stored_rate(rates.push((base, quote, rate)), base, quote) == Some(rate),
        !(b == base && q == quote) ==> stored_rate(rates.push((base, quote, rate)), b, q) == stored_rate(rates, b, q),
        stored_rate(rates, b, q) is Some <==> exists|i: int| 0 <= i < rates.len() && (#[trigger] rates[i]).0 == b && rates[i].1 == q,
        stored_rate(rates, b, q) matches Some(v) ==> exists|i: int| 0 <= i < rates.len() && #[trigger] rates[i] == (b, q, v),
    decreases rates.len(),
{
    assert(rates.push((base, quote, rate)).drop_last() =~= rates);
    if rates.len() > 0 {
        let init = rates.drop_last();
        lemma_rate_after_add(init, base, quote, rate, b, q);
        if stored_rate(init, b, q) is Some {
            let i = choose|i: int| 0 <= i < init.len() && (#[trigger] init[i]).0 == b && init[i].1 == q;
            assert(rates[i] == init[i]);
        }
        if exists|i: int| 0 <= i < rates.len() && (#[trigger] rates[i]).0 == b && rates[i].1 == q {
            let i = choose|i: int| 0 <= i < rates.len() && (#[trigger] rates[i]).0 == b && rates[i].1 == q;
            if i < rates.len() - 1 {
                assert(rates[i] == init[i]);
            }
        }
        if stored_rate(init, b, q) is Some {
            let v = stored_rate(init, b, q)->Some_0;
            let i = choose|i: int| 0 <= i < init.len() && #[trigger] init[i] == (b, q, v);
            assert(rates[i] == init[i]);
        }
        assert(rates[rates.len() - 1] == rates.last());
    }
}

/// FX spot rates by currency pair; the rate registered last for a pair wins.
#[derive(Clone, Debug)]
pub struct ExchangeRateStore<T> {
    pub rates: Vec<(Currency, Currency, T)>,
}

impl<T: Copy> ExchangeRateStore<T> {
    /// An empty store.
    pub fn new() -> (r: ExchangeRateStore<T>)
        ensures
            r.rates@.len() == 0,
    {
        ExchangeRateStore { rates: Vec::new() }
    }

    /// Registers the rate of `base`/`quote`.
    pub fn add_exchange_rate(&mut self, base: Currency, quote: Currency, rate: T)
        ensures
            final(self).rates@ == old(self).rates@.push((base, quote, rate)),
    {
        self.rates.push((base, quote, rate));
    }

    /// The rate of `base`/`quote`; an error when none is stored.
    pub fn get_exchange_rate(&self, base: Currency, quote: Currency) -> (r: Result<T, QSError>)
        ensures
            stored_rate(self.rates@, base, quote) matches Some(v) ==> r == Ok::<T, QSError>(v),
            stored_rate(self.rates@, base, quote) is None ==> r == Err::<T, QSError>(QSError::MissingExchangeRate),
    {
        let n = self.rates.len();
        let mut i: usize = n;
        assert(self.rates@.subrange(0, n as int) =~= self.rates@);
        while i > 0
            invariant
                i <= n,
                n == self.rates@.len(),
                stored_rate(self.rates@, base, quote) == stored_rate(self.rates@.subrange(0, i as int), base, quote),
            decreases i,
        {
            let e = self.rates[i - 1];
            let ghost pre = self.rates@.subrange(0, i as int);
            assert(pre.drop_last() =~= self.rates@.subrange(0, i - 1));
            if e.0 == base && e.1 == quote {
                return Ok(e.2);
            }
            i = i - 1;
        }
        Err(QSError::MissingExchangeRate)
    }
}

} // verus!
