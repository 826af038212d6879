//! FX forward and FX option pricing: the market data they request.
use vstd::prelude::*;

use crate::collateral::{csa_discount_index, SingleCurveCSADiscountPolicy};
use crate::currency::Currency;
use crate::errors::QSError;
use crate::marketdata::{ConstructedElementRequest, ElementRequestKey, FxRequest, MarketDataRequest};
use crate::marketindex::{IndexKey, MarketIndex};

verus! {

/// The discount curves of the two currencies of a pair under a CSA policy, without repetition.
pub open spec fn pair_discount_curves(p: SingleCurveCSADiscountPolicy, base: Currency, quote: Currency) -> Seq<ElementRequestKey> {
    let b = csa_discount_index(p.csa_index@, p.csa_currency, base);
    let q = csa_discount_index(p.csa_index@, p.csa_currency, quote);
    if b == q {
        seq![ElementRequestKey::DiscountCurve(b)]
    } else {
        seq![ElementRequestKey::DiscountCurve(b), ElementRequestKey::DiscountCurve(q)]
    }
}

/// The discount curves requested for a pair are those of both of its
/// currencies under the policy's currency rule (the CSA curve for the CSA
/// currency, the currency's collateral curve against the CSA currency
/// otherwise), the base currency's first, each once.
pub proof fn lemma_pair_discount_curves(p: SingleCurveCSADiscountPolicy, base: Currency, quote: Currency)
    ensures
        ({
            let b = if base == p.csa_currency { p.csa_index@ } else { IndexKey::Collateral(base, p.csa_currency) };
            let q = if quote == p.csa_currency { p.csa_index@ } else { IndexKey::Collateral(quote, p.csa_currency) };
            let s = pair_discount_curves(p, base, quote);
            &&& s[0] == ElementRequestKey::DiscountCurve(b)
            &&& s.contains(ElementRequestKey::DiscountCurve(q))
            &&& s.no_duplicates()
            &&& forall|e: ElementRequestKey| s.contains(e) ==> e == ElementRequestKey::DiscountCurve(b) || e == ElementRequestKey::DiscountCurve(q)
        }),
{
    let b = if base == p.csa_currency { p.csa_index@ } else { IndexKey::Collateral(base, p.csa_currency) };
    let q = if quote == p.csa_currency { p.csa_index@ } else { IndexKey::Collateral(quote, p.csa_currency) };
    let s = pair_discount_curves(p, base, quote);
    if b == q {
        assert(s[0] == ElementRequestKey::DiscountCurve(q));
    } else {
        assert(s[1] == ElementRequestKey::DiscountCurve(q));
    }
}

/// The discount-curve requests for the currencies of a pair, without repetition.
fn pair_discount_requests(policy: &SingleCurveCSADiscountPolicy, base: Currency, quote: Currency) -> (r: Vec<ConstructedElementRequest>)
    ensures
        r@.map_values(|e: ConstructedElementRequest| e@) == pair_discount_curves(*policy, base, quote),
{
    let mut elements: Vec<ConstructedElementRequest> = Vec::new();
    let b = policy.accept_currency(base);
    let q = policy.accept_currency(quote);
    let same = b.same_as(&q);
    elements.push(ConstructedElementRequest::DiscountCurve { market_index: b });
    if !same {
        elements.push(ConstructedElementRequest::DiscountCurve { market_index: q });
    }
    assert(elements@.map_values(|e: ConstructedElementRequest| e@) =~= pair_discount_curves(*policy, base, quote));
    elements
}

/// A pricer for FX forwards, discounting each currency under a discount policy.
pub struct FxForwardPricer {
    pub discount_policy: Option<SingleCurveCSADiscountPolicy>,
}

/// `req` is the request for a forward on `base`/`quote` under the policy
/// `p`: the discount curves of both currencies and the FX rate of the pair.
pub open spec fn forward_request(p: SingleCurveCSADiscountPolicy, base: Currency, quote: Currency, req: MarketDataRequest) -> bool {
    &&& req.constructed_elements matches Some(v) && v@.map_values(|e: ConstructedElementRequest| e@) == pair_discount_curves(p, base, quote)
    &&& req.fx matches Some(f) && f@ == seq![FxRequest { base, quote }]
    &&& req.fixings is None
    &&& !req.exchange_rates
}

/// `req` is the request for an option on `base`/`quote` with volatility on
/// `underlying`, under the policy `p`: the discount curves of both
/// currencies, the volatility surface and the FX rate of the pair.
pub open spec fn option_request(p: SingleCurveCSADiscountPolicy, base: Currency, quote: Currency, underlying: IndexKey, req: MarketDataRequest) -> bool {
    &&& req.constructed_elements matches Some(v) && v@.map_values(|e: ConstructedElementRequest| e@) == pair_discount_curves(p, base, quote).push(ElementRequestKey::VolatilitySurface(underlying))
    &&& req.fx matches Some(f) && f@ == seq![FxRequest { base, quote }]
    &&& req.fixings is None
    &&& !req.exchange_rates
}

impl FxForwardPricer {
    /// Creates a new [`FxForwardPricer`] without discount policy.
    pub fn new() -> (r: FxForwardPricer)
        ensures
            r.discount_policy is None,
    {
        FxForwardPricer { discount_policy: None }
    }

    /// Sets the discount policy.
    pub fn set_discount_policy(&mut self, policy: SingleCurveCSADiscountPolicy)
        ensures
            final(self).discount_policy == Some(policy),
    {
        self.discount_policy = Some(policy);
    }

    /// The market data needed to price a forward on `base`/`quote`: nothing
    /// without a discount policy; else the discount curves of both currencies
    /// and the FX rate of the pair.
    pub fn market_data_request(&self, base: Currency, quote: Currency) -> (r: Option<MarketDataRequest>)
        ensures
            self.discount_policy is None ==> r is None,
            self.discount_policy matches Some(p) ==> (r matches Some(req) && forward_request(p, base, quote, req)),
    {
        match &self.discount_policy {
            None => None,
            Some(policy) => {
                let elements = pair_discount_requests(policy, base, quote);
                let mut fx: Vec<FxRequest> = Vec::new();
                fx.push(FxRequest::pair(base, quote));
                assert(fx@ =~= seq![FxRequest { base, quote }]);
                let request = MarketDataRequest::empty().with_fx_request(fx).with_constructed_elements_request(elements);
                Some(request)
            },
        }
    }

    /// The request an evaluation sends to the market before pricing a
    /// forward on `base`/`quote`; without a discount policy there is none, and
    /// the evaluation fails before any market call.
    pub fn evaluation_request(&self, base: Currency, quote: Currency) -> (r: Result<MarketDataRequest, QSError>)
        ensures
            self.discount_policy is None ==> r == Err::<MarketDataRequest, QSError>(QSError::MissingMarketDataRequest),
            self.discount_policy matches Some(p) ==> (r matches Ok(req) && forward_request(p, base, quote, req)),
    {
        match self.market_data_request(base, quote) {
            Some(req) => Ok(req),
            None => Err(QSError::MissingMarketDataRequest),
        }
    }
}

/// A pricer for FX options (Black-Scholes adapted to FX), discounting each
/// currency under a discount policy.
pub struct FxOptionPricer {
    pub discount_policy: Option<SingleCurveCSADiscountPolicy>,
}

impl FxOptionPricer {
    /// Creates a new [`FxOptionPricer`] without discount policy.
    pub fn new() -> (r: FxOptionPricer)
        ensures
            r.discount_policy is None,
    {
        FxOptionPricer { discount_policy: None }
    }

    /// Sets the discount policy.
    pub fn set_discount_policy(&mut self, policy: SingleCurveCSADiscountPolicy)
        ensures
            final(self).discount_policy == Some(policy),
    {
        self.discount_policy = Some(policy);
    }

    /// The market data needed to price an option on `base`/`quote` whose
    /// volatility is quoted on `underlying_index`: nothing without a discount
    /// policy; else the discount curves of both currencies, the volatility
    /// surface and the FX rate of the pair.
    pub fn market_data_request(&self, base: Currency, quote: Currency, underlying_index: &MarketIndex) -> (r: Option<MarketDataRequest>)
        ensures
            self.discount_policy is None ==> r is None,
            self.discount_policy matches Some(p) ==> (r matches Some(req) && option_request(p, base, quote, underlying_index@, req)),
    {
        match &self.discount_policy {
            None => None,
            Some(policy) => {
                let mut elements = pair_discount_requests(policy, base, quote);
                let ghost e0 = elements@;
                elements.push(ConstructedElementRequest::VolatilitySurface { market_index: underlying_index.duplicate() });
                proof {
                    let f = |e: ConstructedElementRequest| e@;
                    assert(elements@.map_values(f) =~= e0.map_values(f).push(ElementRequestKey::VolatilitySurface(underlying_index@)));
                }
                let mut fx: Vec<FxRequest> = Vec::new();
                fx.push(FxRequest::pair(base, quote));
                assert(fx@ =~= seq![FxRequest { base, quote }]);
                let request = MarketDataRequest::empty().with_fx_request(fx).with_constructed_elements_request(elements);
                Some(request)
            },
        }
    }

    /// The request an evaluation sends to the market before pricing an option
    /// on `base`/`quote` with volatility on `underlying_index`; without a
    /// discount policy there is none, and the evaluation fails before any
    /// market call.
    pub fn evaluation_request(&self, base: Currency, quote: Currency, underlying_index: &MarketIndex) -> (r: Result<MarketDataRequest, QSError>)
        ensures
            self.discount_policy is None ==> r == Err::<MarketDataRequest, QSError>(QSError::MissingMarketDataRequest),
            self.discount_policy matches Some(p) ==> (r matches Ok(req) && option_request(p, base, quote, underlying_index@, req)),
    {
        match self.market_data_request(base, quote, underlying_index) {
            Some(req) => Ok(req),
            None => Err(QSError::MissingMarketDataRequest),
        }
    }
}

} // verus!
