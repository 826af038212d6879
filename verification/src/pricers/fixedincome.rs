//! Deposit pricing: the market data it requests.
use vstd::prelude::*;

use crate::marketdata::{ConstructedElementRequest, ElementRequestKey, MarketDataRequest};
use crate::marketindex::MarketIndex;

verus! {

/// The request for the discount curve of `market_index` alone.
pub fn discount_curve_request(market_index: &MarketIndex) -> (r: MarketDataRequest)
    ensures
        r.constructed_elements matches Some(v) && v@.map_values(|e: ConstructedElementRequest| e@) == seq![ElementRequestKey::DiscountCurve(market_index@)],
        r.fixings is None,
        r.fx is None,
        !r.exchange_rates,
{
    let mut elements: Vec<ConstructedElementRequest> = Vec::new();
    elements.push(ConstructedElementRequest::DiscountCurve { market_index: market_index.duplicate() });
    assert(elements@.map_values(|e: ConstructedElementRequest| e@) =~= seq![ElementRequestKey::DiscountCurve(market_index@)]);
    MarketDataRequest::empty().with_constructed_elements_request(elements)
}

/// Discounted-cashflow pricer for deposits.
pub struct DiscountedDepositPricer;

impl DiscountedDepositPricer {
    /// The market data needed to price a deposit on `market_index`: its discount curve.
    pub fn market_data_request(&self, market_index: &MarketIndex) -> (r: Option<MarketDataRequest>)
        ensures
            r matches Some(req) && (req.constructed_elements matches Some(v) && v@.map_values(|e: ConstructedElementRequest| e@) == seq![ElementRequestKey::DiscountCurve(market_index@)]),
            r matches Some(req) && req.fixings is None && req.fx is None && !req.exchange_rates,
    {
        Some(discount_curve_request(market_index))
    }
}

/// Deposit pricer discounting on the deposit's curve.
pub struct DiscountDepositPricer;

/// Pricer for fixed-rate deposits discounting on the deposit's curve.
pub struct FixedRateDepositDiscountingPricer;

impl FixedRateDepositDiscountingPricer {
    /// The market data needed to price a deposit on `market_index`: its discount curve.
    pub fn market_data_request(&self, market_index: &MarketIndex) -> (r: Option<MarketDataRequest>)
        ensures
            r matches Some(req) && (req.constructed_elements matches Some(v) && v@.map_values(|e: ConstructedElementRequest| e@) == seq![ElementRequestKey::DiscountCurve(market_index@)]),
            r matches Some(req) && req.fixings is None && req.fx is None && !req.exchange_rates,
    {
        Some(discount_curve_request(market_index))
    }
}

} // verus!
