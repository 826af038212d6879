//! Black-Scholes pricing of European equity options: the market data it requests.
use vstd::prelude::*;

use crate::collateral::{csa_discount_index, SingleCurveCSADiscountPolicy};
use crate::currency::Currency;
use crate::marketdata::{ConstructedElementRequest, ElementRequestKey, FixingRequest, MarketDataRequest};
use crate::marketindex::MarketIndex;
use crate::time::Date;

verus! {

/// A pricer for European equity options using the Black-Scholes model. When
/// a discount policy is set, payments are discounted on the CSA curve
/// instead of the curve of the option's index.
pub struct BlackEuropeanOptionPricer {
    pub discount_policy: Option<SingleCurveCSADiscountPolicy>,
}

impl BlackEuropeanOptionPricer {
    /// Creates a new [`BlackEuropeanOptionPricer`] without discount policy.
    pub fn new() -> (r: BlackEuropeanOptionPricer)
        ensures
            r.discount_policy is None,
    {
        BlackEuropeanOptionPricer { discount_policy: None }
    }

    /// Sets the discount policy.
    pub fn set_discount_policy(&mut self, policy: SingleCurveCSADiscountPolicy)
        ensures
            final(self).discount_policy == Some(policy),
    {
        self.discount_policy = Some(policy);
    }

    /// The market data needed to price an option on `market_index`, paying in
    /// `currency`, traded on `trade_date`: the discount, dividend and volatility
    /// objects of the index, the spot fixing on the trade date, and, under a
    /// discount policy, the collateral curve (when it differs) and the FX rates.
    pub fn market_data_request(&self, market_index: &MarketIndex, currency: Currency, trade_date: Date) -> (r: Option<MarketDataRequest>)
        ensures
            r matches Some(req) && {
                &&& req.constructed_elements matches Some(v) && v@.map_values(|e: ConstructedElementRequest| e@) == (match self.discount_policy {
                    None => seq![ElementRequestKey::DiscountCurve(market_index@), ElementRequestKey::DividendCurve(market_index@), ElementRequestKey::VolatilitySurface(market_index@)],
                    Some(p) => {
                        let c = csa_discount_index(p.csa_index@, p.csa_currency, currency);
                        if c == market_index@ {
                            seq![ElementRequestKey::DiscountCurve(market_index@), ElementRequestKey::DividendCurve(market_index@), ElementRequestKey::VolatilitySurface(market_index@)]
                        } else {
                            seq![ElementRequestKey::DiscountCurve(market_index@), ElementRequestKey::DividendCurve(market_index@), ElementRequestKey::VolatilitySurface(market_index@), ElementRequestKey::DiscountCurve(c)]
                        }
                    },
                })
                &&& req.fixings matches Some(f) && f@.len() == 1 && f@[0].market_index@ == market_index@ && f@[0].date == trade_date
                &&& req.fx is None
                &&& req.exchange_rates == self.discount_policy is Some
            },
    {
        let mut elements: Vec<ConstructedElementRequest> = Vec::new();
        elements.push(ConstructedElementRequest::DiscountCurve { market_index: market_index.duplicate() });
        elements.push(ConstructedElementRequest::DividendCurve { market_index: market_index.duplicate() });
        elements.push(ConstructedElementRequest::VolatilitySurface { market_index: market_index.duplicate() });
        let mut fixings: Vec<FixingRequest> = Vec::new();
        fixings.push(FixingRequest::new(market_index.duplicate(), trade_date));
        match &self.discount_policy {
            Some(policy) => {
                let collateral_index = policy.accept_currency(currency);
                if !collateral_index.same_as(market_index) {
                    elements.push(ConstructedElementRequest::DiscountCurve { market_index: collateral_index });
                }
            },
            None => {},
        }
        proof {
            let f = |e: ConstructedElementRequest| e@;
            assert(elements@.map_values(f) =~= (match self.discount_policy {
                None => seq![ElementRequestKey::DiscountCurve(market_index@), ElementRequestKey::DividendCurve(market_index@), ElementRequestKey::VolatilitySurface(market_index@)],
                Some(p) => {
                    let c = csa_discount_index(p.csa_index@, p.csa_currency, currency);
                    if c == market_index@ {
                        seq![ElementRequestKey::DiscountCurve(market_index@), ElementRequestKey::DividendCurve(market_index@), ElementRequestKey::VolatilitySurface(market_index@)]
                    } else {
                        seq![ElementRequestKey::DiscountCurve(market_index@), ElementRequestKey::DividendCurve(market_index@), ElementRequestKey::VolatilitySurface(market_index@), ElementRequestKey::DiscountCurve(c)]
                    }
                },
            }));
        }
        let mut request = MarketDataRequest::empty().with_constructed_elements_request(elements).with_fixings_request(fixings);
        if self.discount_policy.is_some() {
            request = request.with_exchange_rates();
        }
        Some(request)
    }
}

} // verus!
