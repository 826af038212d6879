use quantsupport::cashflows::{CashflowType, Leg, Side, SimpleCashflow};
use quantsupport::currency::Currency;
use quantsupport::marketdata::ConstructedElementRequest;
use quantsupport::marketindex::MarketIndex;
use quantsupport::pricers::cashflows::{market_data_request_from_legs, validate_linear_legs};
use quantsupport::pricers::fx::{FxForwardPricer, FxOptionPricer};
use quantsupport::collateral::SingleCurveCSADiscountPolicy;
use quantsupport::pricers::rates::{BlackCapletPricer, RateFuturesPricer};
use quantsupport::pricers::fixedincome::{DiscountedDepositPricer, FixedRateDepositDiscountingPricer};
use quantsupport::errors::QSError;
use quantsupport::time::Date;

fn redemption_leg(
    id: usize,
    amount: f64,
    date: Date,
    currency: Currency,
    index: MarketIndex,
    side: Side,
    linear: bool,
) -> Leg<f64> {
    Leg::new(
        id,
        vec![CashflowType::Redemption(SimpleCashflow::new(amount, date))],
        currency,
        Some(index),
        None,
        None,
        side,
        linear,
    )
}

#[test]
fn test_cashflow_discounting_pricer_linearity_validation() {
    let date = Date::new(2024, 6, 1);
    let non_linear_leg = redemption_leg(0, 100_000.0, date, Currency::USD, MarketIndex::SOFR, Side::PayShort, false);
    let linear_leg = redemption_leg(1, 100_000.0, date, Currency::USD, MarketIndex::SOFR, Side::PayShort, true);
    assert_eq!(non_linear_leg.is_linear(), false, "Leg should be marked as non-linear");
    assert_eq!(linear_leg.is_linear(), true, "Leg should be marked as linear");
}

#[test]
fn test_cashflow_discounting_pricer_market_data_request_generation() {
    let date1 = Date::new(2024, 6, 1);
    let date2 = Date::new(2024, 12, 1);
    let leg1 = redemption_leg(0, 50_000.0, date1, Currency::USD, MarketIndex::SOFR, Side::PayShort, true);
    let leg2 = redemption_leg(1, 100_000.0, date2, Currency::EUR, MarketIndex::TermSOFR3m, Side::LongReceive, true);
    let legs = vec![leg1, leg2];
    let request = market_data_request_from_legs(&legs);
    if let Some(constructed) = request.constructed_elements_request() {
        assert!(!constructed.is_empty(), "Market data request should contain discount curves");
    } else {
        panic!("Market data request should have constructed elements");
    }
}

#[test]
fn test_cashflow_discounting_pricer_fx_parity_handling() {
    let date = Date::new(2024, 6, 1);
    let leg = redemption_leg(0, 100_000.0, date, Currency::EUR, MarketIndex::TermSOFR3m, Side::LongReceive, true)
        .with_fx_parity(1.1);
    assert_eq!(leg.fx_parity(), Some(1.1), "FX parity should be 1.1");
    let leg2 = redemption_leg(1, 50_000.0, date, Currency::USD, MarketIndex::TermSOFR6m, Side::PayShort, true)
        .with_fx_parity(1.25);
    assert_eq!(leg2.fx_parity(), Some(1.25), "Second leg should have parity 1.25");
}

#[test]
fn test_cashflow_discounting_pricer_multiple_cashflows_per_leg() {
    let date1 = Date::new(2024, 6, 1);
    let date2 = Date::new(2024, 12, 1);
    let leg = Leg::new(
        0,
        vec![
            CashflowType::Redemption(SimpleCashflow::new(25_000.0, date1)),
            CashflowType::Redemption(SimpleCashflow::new(25_000.0, date2)),
        ],
        Currency::USD,
        Some(MarketIndex::SOFR),
        None,
        None,
        Side::PayShort,
        true,
    )
    .with_fx_parity(1.0);
    assert_eq!(leg.cashflows().len(), 2, "Leg should have 2 cashflows");
    assert_eq!(leg.is_linear(), true, "Leg should be linear");
    assert_eq!(leg.fx_parity(), Some(1.0), "FX parity should be 1.0");
}

#[test]
fn test_cashflow_discounting_pricer_leg_properties() {
    let date = Date::new(2024, 6, 1);
    let leg = redemption_leg(42, 100_000.0, date, Currency::USD, MarketIndex::SOFR, Side::PayShort, true);
    assert_eq!(leg.leg_id(), 42, "Leg ID should be 42");
    assert_eq!(leg.cashflows().len(), 1, "Leg should have 1 cashflow");
    assert_eq!(leg.is_linear(), true, "Leg should be linear");
    assert_eq!(leg.market_index(), Some(&MarketIndex::SOFR), "Market index should be SOFR");
    assert_eq!(leg.fx_parity(), None, "FX parity should default to None");
}

#[test]
fn test_cashflow_discounting_pricer_single_cashflow_pricing() {
    let payment_date = Date::new(2024, 7, 1);
    let leg = redemption_leg(0, 100_000.0, payment_date, Currency::USD, MarketIndex::SOFR, Side::PayShort, true);
    let legs = vec![leg];
    assert_eq!(legs.len(), 1, "Trade should have 1 leg");
    assert_eq!(legs[0].cashflows().len(), 1, "Leg should have 1 cashflow");
    assert!(legs[0].is_linear(), "Leg should be linear");
}

#[test]
fn test_cashflow_discounting_pricer_multiple_legs_different_currencies() {
    let date1 = Date::new(2024, 6, 1);
    let date2 = Date::new(2024, 12, 1);
    let leg_usd = redemption_leg(0, 100_000.0, date1, Currency::USD, MarketIndex::SOFR, Side::PayShort, true)
        .with_fx_parity(1.0);
    let leg_eur = redemption_leg(1, 85_000.0, date2, Currency::EUR, MarketIndex::TermSOFR3m, Side::LongReceive, true)
        .with_fx_parity(1.10);
    let legs = vec![leg_usd, leg_eur];
    assert_eq!(legs.len(), 2, "Trade should have 2 legs");
    assert_eq!(legs[0].fx_parity(), Some(1.0), "USD leg should have parity 1.0");
    assert_eq!(legs[1].fx_parity(), Some(1.10), "EUR leg should have parity 1.10");
}

#[test]
fn test_cashflow_discounting_pricer_sequential_cashflows() {
    let date1 = Date::new(2024, 7, 1);
    let date2 = Date::new(2024, 12, 1);
    let date3 = Date::new(2025, 7, 1);
    let leg = Leg::new(
        0,
        vec![
            CashflowType::Redemption(SimpleCashflow::new(2_500.0, date1)),
            CashflowType::Redemption(SimpleCashflow::new(2_500.0, date2)),
            CashflowType::Redemption(SimpleCashflow::new(102_500.0, date3)),
        ],
        Currency::USD,
        Some(MarketIndex::SOFR),
        None,
        None,
        Side::PayShort,
        true,
    );
    let legs = vec![leg];
    assert_eq!(legs[0].cashflows().len(), 3, "Leg should have 3 cashflows");
}

#[test]
fn test_cashflow_discounting_pricer_fx_conversion_in_pricing() {
    let date = Date::new(2024, 7, 1);
    let leg1 = redemption_leg(0, 50_000.0, date, Currency::USD, MarketIndex::SOFR, Side::PayShort, true)
        .with_fx_parity(1.0);
    let leg2 = redemption_leg(1, 50_000.0, date, Currency::EUR, MarketIndex::TermSOFR3m, Side::LongReceive, true)
        .with_fx_parity(1.2);
    let legs = vec![leg1, leg2];
    assert_eq!(legs[0].fx_parity(), Some(1.0));
    assert_eq!(legs[1].fx_parity(), Some(1.2));
}

#[test]
fn test_cashflow_discounting_pricer_pricing_consistency() {
    let date = Date::new(2024, 7, 1);
    let leg = redemption_leg(0, 100_000.0, date, Currency::USD, MarketIndex::SOFR, Side::PayShort, true);
    let legs = vec![leg];
    let leg = &legs[0];
    assert_eq!(leg.cashflows().len(), 1);
    if let CashflowType::Redemption(cf) = &leg.cashflows()[0] {
        assert_eq!(cf.amount().unwrap(), 100_000.0);
        assert_eq!(cf.payment_date(), date);
    } else {
        panic!("Expected Redemption cashflow");
    }
}

#[test]
fn market_data_request_lists_each_index_once_in_first_seen_order() {
    let date = Date::new(2024, 7, 1);
    let legs = vec![
        redemption_leg(0, 1.0, date, Currency::USD, MarketIndex::SOFR, Side::PayShort, true),
        redemption_leg(1, 1.0, date, Currency::EUR, MarketIndex::ESTR, Side::LongReceive, true),
        redemption_leg(2, 1.0, date, Currency::USD, MarketIndex::SOFR, Side::PayShort, true),
    ];
    let request = market_data_request_from_legs(&legs);
    let constructed = request.constructed_elements_request().unwrap();
    assert_eq!(constructed.len(), 2);
    match (&constructed[0], &constructed[1]) {
        (
            ConstructedElementRequest::DiscountCurve { market_index: a },
            ConstructedElementRequest::DiscountCurve { market_index: b },
        ) => {
            assert_eq!(*a, MarketIndex::SOFR);
            assert_eq!(*b, MarketIndex::ESTR);
        }
        _ => panic!("expected discount curve requests"),
    }
}

#[test]
fn market_data_request_from_no_legs_requests_no_curve() {
    let legs: Vec<Leg<f64>> = Vec::new();
    let request = market_data_request_from_legs(&legs);
    let constructed = request.constructed_elements_request().unwrap();
    assert!(constructed.is_empty());
}

#[test]
fn validate_linear_legs_reports_first_non_linear_leg() {
    let date = Date::new(2024, 7, 1);
    let legs = vec![
        redemption_leg(3, 1.0, date, Currency::USD, MarketIndex::SOFR, Side::PayShort, true),
        redemption_leg(7, 1.0, date, Currency::USD, MarketIndex::SOFR, Side::PayShort, false),
        redemption_leg(9, 1.0, date, Currency::USD, MarketIndex::SOFR, Side::PayShort, false),
    ];
    assert_eq!(validate_linear_legs(&legs), Err(QSError::NonLinearLeg(7)));
    assert_eq!(validate_linear_legs(&legs[..1]), Ok(()));
}

#[test]
fn last_payment_date_is_latest_of_the_leg() {
    let leg = Leg::new(
        0,
        vec![
            CashflowType::Redemption(SimpleCashflow::new(1.0, Date::new(2025, 7, 1))),
            CashflowType::Redemption(SimpleCashflow::new(1.0, Date::new(2024, 7, 1))),
        ],
        Currency::USD,
        Some(MarketIndex::SOFR),
        None,
        None,
        Side::PayShort,
        true,
    );
    assert_eq!(leg.last_payment_date(), Some(Date::new(2025, 7, 1)));
    let empty: Leg<f64> = Leg::new(0, Vec::new(), Currency::USD, None, None, None, Side::PayShort, true);
    assert_eq!(empty.last_payment_date(), None);
}

#[test]
fn curve_pricers_request_only_constructed_elements() {
    let reqs = vec![
        BlackCapletPricer.market_data_request(&MarketIndex::SOFR).unwrap(),
        RateFuturesPricer::new().market_data_request(&MarketIndex::SOFR).unwrap(),
        DiscountedDepositPricer.market_data_request(&MarketIndex::SOFR).unwrap(),
        FixedRateDepositDiscountingPricer.market_data_request(&MarketIndex::SOFR).unwrap(),
    ];
    for r in &reqs {
        assert!(r.fixings.is_none());
        assert!(r.fx.is_none());
        assert!(!r.exchange_rates);
        assert!(r.constructed_elements_request().is_some());
    }
    assert_eq!(reqs[0].constructed_elements_request().unwrap().len(), 2);
}

#[test]
fn fx_pricers_without_policy_have_no_request() {
    let fwd = FxForwardPricer::new();
    assert!(fwd.market_data_request(Currency::EUR, Currency::USD).is_none());
    assert_eq!(fwd.evaluation_request(Currency::EUR, Currency::USD).err(), Some(QSError::MissingMarketDataRequest));
    let opt = FxOptionPricer::new();
    assert_eq!(
        opt.evaluation_request(Currency::EUR, Currency::USD, &MarketIndex::Other("EURUSD".to_string())).err(),
        Some(QSError::MissingMarketDataRequest)
    );
    let mut with_policy = FxForwardPricer::new();
    with_policy.set_discount_policy(SingleCurveCSADiscountPolicy::new(MarketIndex::SOFR, Currency::USD));
    let req = with_policy.evaluation_request(Currency::EUR, Currency::USD).unwrap();
    assert_eq!(req.constructed_elements_request().unwrap().len(), 2);
    assert!(req.fx_request().is_some());
}
