use std::cell::{Cell, RefCell};

use quantsupport::bootstrap::MultiCurveBootstrapper as SpecBootstrapper;
use quantsupport::bootstrapdiscountpolicy::BootstrapDiscountPolicy;
use quantsupport::cashflows::{CashflowType, Leg, Side, SimpleCashflow};
use quantsupport::currency::Currency;
use quantsupport::curveconfiguration::CurveConfiguration;
use quantsupport::curvespec::CurveSpec;
use quantsupport::errors::QSError;
use quantsupport::instruments::{BuiltInstrument, Swap};
use quantsupport::marketdata::ExchangeRateStore;
use quantsupport::marketindex::MarketIndex;
use quantsupport::multicurvebootstrapper::MultiCurveBootstrapper;
use quantsupport::quote::{Level, Quote, QuoteDetails, QuoteInstrument, QuoteLevels};
use quantsupport::quoteselector::{select_quotes, QuoteSelector};
use quantsupport::quotestore::QuoteStore;
use quantsupport::time::{Date, DayCounter, Interpolator};

fn ref_date() -> Date {
    Date::new(2024, 6, 1)
}

fn pillar() -> Date {
    Date::new(2025, 6, 1)
}

fn ois_swap(index: MarketIndex) -> BuiltInstrument<f64> {
    let leg = Leg::new(
        0,
        vec![CashflowType::Redemption(SimpleCashflow::new(1_000_000.0, pillar()))],
        Currency::USD,
        Some(index.clone()),
        None,
        None,
        Side::PayShort,
        true,
    );
    BuiltInstrument::Swap(Swap { fixed_leg: leg.clone(), floating_leg: leg, forward_index: index })
}

fn store(entries: &[(&str, QuoteLevels<f64>)]) -> QuoteStore<f64> {
    let mut s = QuoteStore::new(ref_date());
    for (id, levels) in entries {
        let details = QuoteDetails::<f64>::parse(id).map(|p| p.details).unwrap_or_else(|_| QuoteDetails::new(id.to_string(), QuoteInstrument::OIS));
        s.add_quote(Quote::new(details, *levels));
    }
    s
}

fn build_ois(q: &Quote<f64>, _d: Date, _l: Level, _fx: Option<f64>) -> Result<BuiltInstrument<f64>, QSError> {
    match q.details().market_index() {
        Some(i) => Ok(ois_swap(i.clone())),
        None => Err(QSError::UnsupportedInstrument),
    }
}

fn ids(v: &[&str]) -> Vec<String> {
    v.iter().map(|s| s.to_string()).collect()
}

#[test]
fn quote_store_selects_by_identifier() {
    let s = store(&[("USD_OIS_SOFR_1Y", QuoteLevels::with_mid(0.05))]);
    assert_eq!(s.select("USD_OIS_SOFR_1Y").map(|q| q.details().identifier()), Some("USD_OIS_SOFR_1Y".to_string()));
    assert!(s.select("USD_OIS_SOFR_2Y").is_none());
    assert_eq!(QuoteSelector::<f64>::reference_date(&s), ref_date());
}

#[test]
fn selection_stops_after_a_missing_quote() {
    let s = store(&[("USD_OIS_SOFR_1Y", QuoteLevels::with_mid(0.05)), ("USD_OIS_SOFR_3Y", QuoteLevels::with_mid(0.05))]);
    let calls = Cell::new(0);
    let build = |q: &Quote<f64>, d: Date, l: Level, fx: Option<f64>| {
        calls.set(calls.get() + 1);
        build_ois(q, d, l, fx)
    };
    let r = select_quotes(&ids(&["USD_OIS_SOFR_1Y", "USD_OIS_SOFR_2Y", "USD_OIS_SOFR_3Y"]), &s, Level::Mid, None, &build);
    assert_eq!(r.len(), 3);
    assert!(matches!(r[0], Some(Ok(_))));
    assert!(r[1].is_none());
    assert!(r[2].is_none());
    assert_eq!(calls.get(), 1);
}

#[test]
fn missing_level_is_reported_before_building() {
    let s = store(&[("USD_OIS_SOFR_1Y", QuoteLevels::new(Some(0.05), None, None))]);
    let calls = Cell::new(0);
    let build = |q: &Quote<f64>, d: Date, l: Level, fx: Option<f64>| {
        calls.set(calls.get() + 1);
        build_ois(q, d, l, fx)
    };
    let r = select_quotes(&ids(&["USD_OIS_SOFR_1Y"]), &s, Level::Bid, None, &build);
    assert_eq!(r.len(), 1);
    assert!(matches!(r[0], Some(Err(QSError::MissingQuoteLevel(Level::Bid)))));
    assert_eq!(calls.get(), 0);
}

#[test]
fn plan_bootstrap_selects_resolves_and_orders() {
    let s = store(&[("USD_OIS_SOFR_1Y", QuoteLevels::with_mid(0.05))]);
    let b: MultiCurveBootstrapper<f64> = MultiCurveBootstrapper::new(
        vec![CurveConfiguration::new(MarketIndex::SOFR, DayCounter::Actual360, Interpolator::LogLinear, true, ids(&["USD_OIS_SOFR_1Y"]))],
        BootstrapDiscountPolicy::new(MarketIndex::SOFR, Currency::USD),
    );
    let plan = b.plan_bootstrap(&s, Level::Mid, &build_ois).unwrap();
    assert_eq!(plan.order, vec![MarketIndex::SOFR]);
    assert_eq!(plan.curves.len(), 1);
    assert_eq!(plan.curves[0].1.reference_date(), Ok(ref_date()));
}

#[test]
fn plan_bootstrap_reports_a_missing_quote() {
    let s = store(&[("USD_OIS_SOFR_1Y", QuoteLevels::with_mid(0.05))]);
    let b: MultiCurveBootstrapper<f64> = MultiCurveBootstrapper::new(
        vec![CurveConfiguration::new(MarketIndex::SOFR, DayCounter::Actual360, Interpolator::LogLinear, true, ids(&["USD_OIS_SOFR_1Y", "USD_OIS_SOFR_2Y"]))],
        BootstrapDiscountPolicy::new(MarketIndex::SOFR, Currency::USD),
    );
    let r = b.plan_bootstrap(&s, Level::Mid, &build_ois);
    assert!(matches!(r, Err(QSError::QuoteNotFound(ref id)) if id == "USD_OIS_SOFR_2Y"));
}

#[test]
fn resolve_specs_selects_and_resolves() {
    let s = store(&[("USD_OIS_SOFR_1Y", QuoteLevels::with_mid(0.05))]);
    let b: SpecBootstrapper<f64> = SpecBootstrapper::new(
        vec![CurveSpec::new(MarketIndex::SOFR, Currency::USD, DayCounter::Actual360, Interpolator::LogLinear, true, ids(&["USD_OIS_SOFR_1Y"]))],
        BootstrapDiscountPolicy::new(MarketIndex::SOFR, Currency::USD),
    );
    let r = b.resolve_specs(&s, Level::Mid, &build_ois).unwrap();
    assert_eq!(r.len(), 1);
    assert_eq!(r[0].0, MarketIndex::SOFR);
    assert_eq!(r[0].1.reference_date(), ref_date());
    let missing = b.resolve_specs(&store(&[]), Level::Mid, &build_ois);
    assert!(matches!(missing, Err(QSError::QuoteNotFound(ref id)) if id == "USD_OIS_SOFR_1Y"));
}

#[test]
fn plan_bootstrap_hands_each_curve_its_fx_spot_and_the_reference_date() {
    let s = store(&[("USD_OIS_SOFR_1Y", QuoteLevels::with_mid(0.05)), ("CLP_OIS_ICP_1Y", QuoteLevels::with_mid(0.06))]);
    let mut rates = ExchangeRateStore::new();
    rates.add_exchange_rate(Currency::USD, Currency::CLP, 940.0);
    let b: MultiCurveBootstrapper<f64> = MultiCurveBootstrapper::new(
        vec![
            CurveConfiguration::new(MarketIndex::SOFR, DayCounter::Actual360, Interpolator::LogLinear, true, ids(&["USD_OIS_SOFR_1Y"])),
            CurveConfiguration::new(MarketIndex::Collateral(Currency::CLP, Currency::USD), DayCounter::Actual360, Interpolator::LogLinear, true, ids(&["CLP_OIS_ICP_1Y"])),
        ],
        BootstrapDiscountPolicy::new(MarketIndex::SOFR, Currency::USD),
    )
    .with_exchange_rate_store(rates);
    let seen: RefCell<Vec<(String, Date, Option<f64>)>> = RefCell::new(Vec::new());
    let build = |q: &Quote<f64>, d: Date, l: Level, fx: Option<f64>| {
        seen.borrow_mut().push((q.details().identifier(), d, fx));
        build_ois(q, d, l, fx)
    };
    let _ = b.plan_bootstrap(&s, Level::Mid, &build);
    assert_eq!(
        *seen.borrow(),
        vec![("USD_OIS_SOFR_1Y".to_string(), ref_date(), None), ("CLP_OIS_ICP_1Y".to_string(), ref_date(), Some(940.0))]
    );
}

#[test]
fn plan_bootstrap_of_no_curve_is_an_empty_plan() {
    let b: MultiCurveBootstrapper<f64> = MultiCurveBootstrapper::new(Vec::new(), BootstrapDiscountPolicy::new(MarketIndex::SOFR, Currency::USD));
    let plan = b.plan_bootstrap(&store(&[]), Level::Mid, &build_ois).unwrap();
    assert!(plan.order.is_empty());
    assert!(plan.curves.is_empty());
}

#[test]
fn configuration_resolves_from_a_selector() {
    let s = store(&[("USD_OIS_SOFR_1Y", QuoteLevels::with_mid(0.05))]);
    let mut cfg = CurveConfiguration::new(MarketIndex::SOFR, DayCounter::Actual360, Interpolator::LogLinear, true, ids(&["USD_OIS_SOFR_1Y"]));
    assert_eq!(cfg.resolve_from(&s, Level::Mid, None, &build_ois), Ok(()));
    assert_eq!(cfg.reference_date(), Ok(ref_date()));
    assert_eq!(cfg.pillar_dates(), vec![pillar()]);
    let mut missing = CurveConfiguration::new(MarketIndex::SOFR, DayCounter::Actual360, Interpolator::LogLinear, true, ids(&["USD_OIS_SOFR_2Y"]));
    assert_eq!(missing.resolve_from(&s, Level::Mid, None, &build_ois), Err(QSError::QuoteNotFound("USD_OIS_SOFR_2Y".to_string())));
    assert_eq!(missing.reference_date(), Ok(ref_date()));
    assert!(missing.pillar_dates().is_empty());
}
