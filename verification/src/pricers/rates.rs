//! Interest-rate pricers: the market data they request.
use vstd::prelude::*;

use crate::marketdata::{ConstructedElementRequest, ElementRequestKey, MarketDataRequest};
use crate::marketindex::MarketIndex;
use crate::pricers::fixedincome::discount_curve_request;

verus! {

/// Black pricer for caplets and floorlets.
pub struct BlackCapletPricer;

impl BlackCapletPricer {
    /// The market data needed to price a caplet on `market_index`: its
    /// discount curve and its volatility surface.
    pub fn market_data_request(&self, market_index: &MarketIndex) -> (r: Option<MarketDataRequest>)
        ensures
            r matches Some(req) && (req.constructed_elements matches Some(v) && v@.map_values(|e: ConstructedElementRequest| e@)
                == seq![ElementRequestKey::DiscountCurve(market_index@), ElementRequestKey::VolatilitySurface(market_index@)]),
            r matches Some(req) && req.fixings is None && req.fx is None && !req.exchange_rates,
    {
        let mut elements: Vec<ConstructedElementRequest> = Vec::new();
        elements.push(ConstructedElementRequest::DiscountCurve { market_index: market_index.duplicate() });
        elements.push(ConstructedElementRequest::VolatilitySurface { market_index: market_index.duplicate() });
        assert(elements@.map_values(|e: ConstructedElementRequest| e@) =~= seq![ElementRequestKey::DiscountCurve(market_index@), ElementRequestKey::VolatilitySurface(market_index@)]);
        Some(MarketDataRequest::empty().with_constructed_elements_request(elements))
    }
}

/// Interest rate swap pricer discounting on the swap's curve.
pub struct DiscountInterestRateSwapPricer;

/// Pricer for rate futures.
#[derive(Clone, Copy, Debug, Default)]
pub struct RateFuturesPricer;

impl RateFuturesPricer {
    /// Creates a new [`RateFuturesPricer`].
    pub fn new() -> (r: RateFuturesPricer) {
        RateFuturesPricer
    }

    /// The market data needed to price a future on `market_index`: its discount curve.
    pub fn market_data_request(&self, market_index: &MarketIndex) -> (r: Option<MarketDataRequest>)
        ensures
            r matches Some(req) && (req.constructed_elements matches Some(v) && v@.map_values(|e: ConstructedElementRequest| e@) == seq![ElementRequestKey::DiscountCurve(market_index@)]),
            r matches Some(req) && req.fixings is None && req.fx is None && !req.exchange_rates,
    {
        Some(discount_curve_request(market_index))
    }
}

} // verus!
