use quantsupport::bootstrap::MultiCurveBootstrapper as SpecBootstrapper;
use quantsupport::bootstrapcalibrationinstrument::settlement_date;
use quantsupport::bootstrapdiscountpolicy::BootstrapDiscountPolicy;
use quantsupport::bootstrapstep::BootstrapStep;
use quantsupport::bootstraputils::dependency_order;
use quantsupport::cashflows::{CashflowType, Leg, Side, SimpleCashflow};
use quantsupport::currency::Currency;
use quantsupport::curveconfiguration::CurveConfiguration;
use quantsupport::curvespec::CurveSpec;
use quantsupport::errors::QSError;
use quantsupport::interest_rate_curve_bootstrapper::select_pillars;
use quantsupport::instruments::{BuiltInstrument, FixedRateDeposit, FxForward, Swap};
use quantsupport::marketdata::ExchangeRateStore;
use quantsupport::marketindex::MarketIndex;
use quantsupport::multicurvebootstrapper::MultiCurveBootstrapper;
use quantsupport::quote::{Level, Quote, QuoteDetails, QuoteInstrument, QuoteLevels};
use quantsupport::time::{Date, DayCounter, Interpolator};

type Entry = Option<Result<(Quote<f64>, BuiltInstrument<f64>), QSError>>;

fn ref_date() -> Date {
    Date::new(2024, 6, 1)
}

fn leg(currency: Currency, index: MarketIndex, date: Date) -> Leg<f64> {
    Leg::new(
        0,
        vec![CashflowType::Redemption(SimpleCashflow::new(1_000_000.0, date))],
        currency,
        Some(index),
        None,
        None,
        Side::PayShort,
        true,
    )
}

fn quote(id: &str, instrument: QuoteInstrument, mid: f64) -> Quote<f64> {
    Quote::new(QuoteDetails::new(id.to_string(), instrument), QuoteLevels::with_mid(mid))
}

fn ois(id: &str, currency: Currency, index: MarketIndex, date: Date) -> Entry {
    let swap = Swap {
        fixed_leg: leg(currency, index.clone(), date),
        floating_leg: leg(currency, index.clone(), date),
        forward_index: index,
    };
    Some(Ok((quote(id, QuoteInstrument::OIS, 0.05), BuiltInstrument::Swap(swap))))
}

fn deposit(id: &str, currency: Currency, index: MarketIndex, date: Date) -> Entry {
    let dep = FixedRateDeposit { leg: leg(currency, index.clone(), date), discount_index: Some(index) };
    Some(Ok((quote(id, QuoteInstrument::FixedRateDeposit, 0.04), BuiltInstrument::FixedRateDeposit(dep))))
}

fn fx_forward(id: &str, base: Currency, quote_ccy: Currency, date: Date) -> Entry {
    let fwd = FxForward { base_currency: base, quote_currency: quote_ccy, delivery_date: date };
    Some(Ok((quote(id, QuoteInstrument::OutrightForward, 1.1), BuiltInstrument::FxForward(fwd))))
}

fn config(index: MarketIndex, ids: &[&str]) -> CurveConfiguration<f64> {
    CurveConfiguration::new(
        index,
        DayCounter::Actual360,
        Interpolator::LogLinear,
        true,
        ids.iter().map(|s| s.to_string()).collect(),
    )
}

fn resolved(index: MarketIndex, entries: Vec<Entry>) -> CurveConfiguration<f64> {
    let ids: Vec<String> = entries
        .iter()
        .map(|e| match e {
            Some(Ok((q, _))) => q.details().identifier(),
            _ => String::new(),
        })
        .collect();
    let mut cfg = CurveConfiguration::new(index, DayCounter::Actual360, Interpolator::LogLinear, true, ids);
    cfg.resolve(ref_date(), Level::Mid, entries).unwrap();
    cfg
}

fn usd_policy() -> BootstrapDiscountPolicy {
    BootstrapDiscountPolicy::new(MarketIndex::SOFR, Currency::USD)
}

#[test]
fn dependencies_unresolved_errors() {
    let cfg = config(MarketIndex::SOFR, &["OIS_USD_SOFR_1Y"]);
    let policy = usd_policy();
    assert!(cfg.dependencies(&policy).is_err());
}

#[test]
fn dependencies_of_unresolved_configuration_name_the_curve() {
    let cfg = config(MarketIndex::SOFR, &["OIS_USD_SOFR_1Y"]);
    assert_eq!(cfg.dependencies(&usd_policy()), Err(QSError::CurveNotResolved(MarketIndex::SOFR)));
    assert_eq!(cfg.reference_date(), Err(QSError::ConfigurationNotResolved));
    assert!(cfg.instruments().is_err());
    assert!(cfg.pillar_dates().is_empty());
}

#[test]
fn dependencies_of_empty_configuration_error() {
    let cfg = resolved(MarketIndex::SOFR, Vec::new());
    assert_eq!(cfg.dependencies(&usd_policy()), Err(QSError::NoCalibrationInstruments(MarketIndex::SOFR)));
}

#[test]
fn dependencies_of_usd_ois_curve_are_only_sofr() {
    let d = Date::new(2025, 6, 1);
    let cfg = resolved(
        MarketIndex::SOFR,
        vec![
            deposit("USD_FixedRateDeposit_SOFR_3M", Currency::USD, MarketIndex::SOFR, Date::new(2024, 9, 1)),
            ois("USD_OIS_SOFR_1Y", Currency::USD, MarketIndex::SOFR, d),
        ],
    );
    let deps = cfg.dependencies(&usd_policy()).unwrap();
    assert_eq!(deps, vec![MarketIndex::SOFR]);
}

#[test]
fn dependencies_of_eur_ois_curve_include_collateral_curve() {
    let cfg = resolved(
        MarketIndex::EURIBOR1m,
        vec![ois("EUR_OIS_EURIBOR1m_1Y", Currency::EUR, MarketIndex::EURIBOR1m, Date::new(2025, 6, 1))],
    );
    let deps = cfg.dependencies(&usd_policy()).unwrap();
    assert!(deps.contains(&MarketIndex::EURIBOR1m));
    assert!(deps.contains(&MarketIndex::Collateral(Currency::EUR, Currency::USD)));
    assert_eq!(deps.len(), 2);
}

#[test]
fn resolution_sorts_instruments_by_pillar_and_keeps_ties_in_quote_order() {
    let late = Date::new(2026, 6, 1);
    let early = Date::new(2024, 9, 1);
    let cfg = resolved(
        MarketIndex::SOFR,
        vec![
            ois("A", Currency::USD, MarketIndex::SOFR, late),
            deposit("B", Currency::USD, MarketIndex::SOFR, early),
            ois("C", Currency::USD, MarketIndex::SOFR, late),
        ],
    );
    assert_eq!(cfg.pillar_dates(), vec![early, late, late]);
    assert_eq!(cfg.pillar_labels(), vec!["B".to_string(), "A".to_string(), "C".to_string()]);
    assert_eq!(cfg.quote_values(), vec![0.04, 0.05, 0.05]);
    assert_eq!(cfg.reference_date(), Ok(ref_date()));
}

#[test]
fn resolution_reports_first_failure_and_missing_level() {
    let mut cfg = config(MarketIndex::SOFR, &["A", "B"]);
    let missing = Quote::new(
        QuoteDetails::new("A".to_string(), QuoteInstrument::OIS),
        QuoteLevels::new(None, Some(0.01), None),
    );
    let swap = match ois("A", Currency::USD, MarketIndex::SOFR, Date::new(2025, 6, 1)) {
        Some(Ok((_, b))) => b,
        _ => unreachable!(),
    };
    let r = cfg.resolve(
        ref_date(),
        Level::Mid,
        vec![Some(Ok((missing, swap))), None],
    );
    assert_eq!(r, Err(QSError::MissingQuoteLevel(Level::Mid)));
    assert!(cfg.instruments().is_err());
}

#[test]
fn resolution_reports_a_missing_quote_by_its_identifier() {
    let mut cfg = config(MarketIndex::SOFR, &["A", "B"]);
    let r = cfg.resolve(ref_date(), Level::Mid, vec![ois("A", Currency::USD, MarketIndex::SOFR, Date::new(2025, 6, 1)), None]);
    assert_eq!(r, Err(QSError::QuoteNotFound("B".to_string())));
    assert!(cfg.instruments().is_err());
    assert_eq!(cfg.reference_date(), Ok(ref_date()));
}

#[test]
fn dependency_order_puts_every_curve_after_its_dependencies() {
    let d = Date::new(2025, 6, 1);
    let curves = vec![
        (
            MarketIndex::EURIBOR1m,
            resolved(MarketIndex::EURIBOR1m, vec![ois("EUR_OIS_EURIBOR1m_1Y", Currency::EUR, MarketIndex::EURIBOR1m, d)]),
        ),
        (
            MarketIndex::Collateral(Currency::EUR, Currency::USD),
            resolved(
                MarketIndex::Collateral(Currency::EUR, Currency::USD),
                vec![fx_forward("EURUSD_OutrightForward_1Y", Currency::EUR, Currency::USD, d)],
            ),
        ),
        (MarketIndex::SOFR, resolved(MarketIndex::SOFR, vec![ois("USD_OIS_SOFR_1Y", Currency::USD, MarketIndex::SOFR, d)])),
    ];
    let order = dependency_order(&curves, &usd_policy()).unwrap();
    assert_eq!(
        order,
        vec![
            MarketIndex::SOFR,
            MarketIndex::Collateral(Currency::EUR, Currency::USD),
            MarketIndex::EURIBOR1m,
        ]
    );
}

#[test]
fn dependency_order_reports_missing_configuration() {
    let d = Date::new(2025, 6, 1);
    let curves = vec![(
        MarketIndex::EURIBOR1m,
        resolved(MarketIndex::EURIBOR1m, vec![ois("EUR_OIS_EURIBOR1m_1Y", Currency::EUR, MarketIndex::EURIBOR1m, d)]),
    )];
    assert_eq!(
        dependency_order(&curves, &usd_policy()),
        Err(QSError::MissingCurveConfiguration {
            curve: MarketIndex::EURIBOR1m,
            dependency: MarketIndex::Collateral(Currency::EUR, Currency::USD),
        })
    );
}

#[test]
fn dependency_order_detects_cycles() {
    let d = Date::new(2025, 6, 1);
    let a = Swap {
        fixed_leg: leg(Currency::USD, MarketIndex::SOFR, d),
        floating_leg: leg(Currency::USD, MarketIndex::ESTR, d),
        forward_index: MarketIndex::ESTR,
    };
    let b = Swap {
        fixed_leg: leg(Currency::USD, MarketIndex::ESTR, d),
        floating_leg: leg(Currency::USD, MarketIndex::SOFR, d),
        forward_index: MarketIndex::ICP,
    };
    let c = deposit("ICP_DEP", Currency::USD, MarketIndex::SOFR, d);
    let curves = vec![
        (MarketIndex::SOFR, resolved(MarketIndex::SOFR, vec![Some(Ok((quote("A", QuoteInstrument::OIS, 0.01), BuiltInstrument::Swap(a))))])),
        (MarketIndex::ESTR, resolved(MarketIndex::ESTR, vec![Some(Ok((quote("B", QuoteInstrument::OIS, 0.01), BuiltInstrument::Swap(b))))])),
        (MarketIndex::ICP, resolved(MarketIndex::ICP, vec![c])),
    ];
    assert_eq!(dependency_order(&curves, &usd_policy()), Err(QSError::CircularDependency));
}

#[test]
fn deposit_only_curve_needs_no_csa_curve() {
    let curves = vec![(
        MarketIndex::ICP,
        resolved(
            MarketIndex::ICP,
            vec![deposit("CLP_FixedRateDeposit_ICP_3M", Currency::CLP, MarketIndex::ICP, Date::new(2024, 9, 1))],
        ),
    )];
    assert_eq!(dependency_order(&curves, &usd_policy()), Ok(vec![MarketIndex::ICP]));
}

#[test]
fn multicurve_bootstrapper_resolves_and_orders() {
    let d = Date::new(2025, 6, 1);
    let configs = vec![
        config(MarketIndex::EURIBOR1m, &["EUR_OIS_EURIBOR1m_1Y"]),
        config(MarketIndex::SOFR, &["USD_OIS_SOFR_1Y"]),
        config(MarketIndex::Collateral(Currency::EUR, Currency::USD), &["EURUSD_OutrightForward_1Y"]),
    ];
    let selected = vec![
        vec![ois("EUR_OIS_EURIBOR1m_1Y", Currency::EUR, MarketIndex::EURIBOR1m, d)],
        vec![ois("USD_OIS_SOFR_1Y", Currency::USD, MarketIndex::SOFR, d)],
        vec![fx_forward("EURUSD_OutrightForward_1Y", Currency::EUR, Currency::USD, d)],
    ];
    let plan = MultiCurveBootstrapper::new(configs, usd_policy())
        .resolve_and_order(ref_date(), Level::Mid, selected)
        .unwrap();
    assert_eq!(plan.curves.len(), 3);
    assert_eq!(
        plan.order,
        vec![
            MarketIndex::SOFR,
            MarketIndex::Collateral(Currency::EUR, Currency::USD),
            MarketIndex::EURIBOR1m,
        ]
    );
    for (k, c) in &plan.curves {
        assert_eq!(c.market_index(), k);
        assert_eq!(c.reference_date(), Ok(ref_date()));
    }
}

#[test]
fn multicurve_bootstrapper_returns_first_resolution_failure() {
    let configs = vec![config(MarketIndex::SOFR, &["X"]), config(MarketIndex::ESTR, &["Y"])];
    let selected = vec![
        vec![None],
        vec![None],
    ];
    let r = MultiCurveBootstrapper::new(configs, usd_policy()).resolve_and_order(ref_date(), Level::Mid, selected);
    assert!(matches!(r, Err(QSError::QuoteNotFound(ref s)) if s == "X"));
}

#[test]
fn multicurve_bootstrapper_keeps_the_last_configuration_of_an_index() {
    let d = Date::new(2025, 6, 1);
    let configs = vec![config(MarketIndex::SOFR, &["A"]), config(MarketIndex::SOFR, &["B", "C"])];
    let selected = vec![
        vec![ois("A", Currency::USD, MarketIndex::SOFR, d)],
        vec![ois("B", Currency::USD, MarketIndex::SOFR, d), ois("C", Currency::USD, MarketIndex::SOFR, d)],
    ];
    let plan = MultiCurveBootstrapper::new(configs, usd_policy())
        .resolve_and_order(ref_date(), Level::Mid, selected)
        .unwrap();
    assert_eq!(plan.curves.len(), 1);
    assert_eq!(plan.curves[0].1.pillar_labels(), vec!["B".to_string(), "C".to_string()]);
    assert_eq!(plan.order, vec![MarketIndex::SOFR]);
}

#[test]
fn fx_spot_for_collateral_curve_reads_collateral_over_currency() {
    let mut store = ExchangeRateStore::new();
    store.add_exchange_rate(Currency::USD, Currency::CLP, 950.0);
    store.add_exchange_rate(Currency::USD, Currency::CLP, 940.0);
    let b: MultiCurveBootstrapper<f64> = MultiCurveBootstrapper::new(Vec::new(), usd_policy()).with_exchange_rate_store(store);
    assert_eq!(b.fx_spot_for(&MarketIndex::Collateral(Currency::CLP, Currency::USD)), Some(940.0));
    assert_eq!(b.fx_spot_for(&MarketIndex::Collateral(Currency::EUR, Currency::USD)), None);
    assert_eq!(b.fx_spot_for(&MarketIndex::SOFR), None);
}

#[test]
fn exchange_rate_store_reports_missing_pair() {
    let mut store: ExchangeRateStore<f64> = ExchangeRateStore::new();
    store.add_exchange_rate(Currency::EUR, Currency::USD, 1.1);
    assert_eq!(store.get_exchange_rate(Currency::EUR, Currency::USD), Ok(1.1));
    assert_eq!(store.get_exchange_rate(Currency::USD, Currency::EUR), Err(QSError::MissingExchangeRate));
}

#[test]
fn spec_bootstrapper_resolves_each_spec() {
    let d = Date::new(2025, 6, 1);
    let specs = vec![
        CurveSpec::new(MarketIndex::SOFR, Currency::USD, DayCounter::Actual360, Interpolator::LogLinear, true, vec!["A".to_string(), "B".to_string()]),
        CurveSpec::new(MarketIndex::ICP, Currency::CLP, DayCounter::Actual360, Interpolator::Linear, false, vec!["C".to_string()]),
    ];
    let b: SpecBootstrapper<f64> = SpecBootstrapper::new(specs, usd_policy());
    let selected = vec![
        vec![ois("A", Currency::USD, MarketIndex::SOFR, d), ois("B", Currency::USD, MarketIndex::SOFR, d)],
        vec![deposit("C", Currency::CLP, MarketIndex::ICP, d)],
    ];
    let resolved = b.resolve_all(ref_date(), Level::Mid, selected).unwrap();
    assert_eq!(resolved.len(), 2);
    assert_eq!(resolved[0].0, MarketIndex::SOFR);
    assert_eq!(resolved[0].1.instruments().len(), 2);
    assert_eq!(resolved[1].1.currency(), Currency::CLP);
    assert_eq!(resolved[1].1.reference_date(), ref_date());
}

#[test]
fn spec_bootstrapper_reports_a_missing_quote() {
    let d = Date::new(2025, 6, 1);
    let specs = vec![CurveSpec::new(MarketIndex::SOFR, Currency::USD, DayCounter::Actual360, Interpolator::LogLinear, true, vec!["A".to_string(), "B".to_string()])];
    let b: SpecBootstrapper<f64> = SpecBootstrapper::new(specs, usd_policy());
    let r = b.resolve_all(ref_date(), Level::Mid, vec![vec![None, ois("B", Currency::USD, MarketIndex::SOFR, d)]]);
    assert!(matches!(r, Err(QSError::QuoteNotFound(ref s)) if s == "A"));
}

#[test]
fn spec_bootstrapper_returns_first_failure() {
    let specs = vec![CurveSpec::new(MarketIndex::SOFR, Currency::USD, DayCounter::Actual360, Interpolator::LogLinear, true, vec!["A".to_string()])];
    let b: SpecBootstrapper<f64> = SpecBootstrapper::new(specs, usd_policy());
    let r = b.resolve_all(ref_date(), Level::Mid, vec![vec![Some(Err(QSError::UnsupportedInstrument))]]);
    assert!(matches!(r, Err(QSError::UnsupportedInstrument)));
}

#[test]
fn bootstrap_step_picks_discount_and_projection_curves() {
    let policy = usd_policy();
    let mut store: ExchangeRateStore<f64> = ExchangeRateStore::new();
    store.add_exchange_rate(Currency::EUR, Currency::USD, 1.1);
    let solved = vec![(MarketIndex::SOFR, "sofr"), (MarketIndex::ESTR, "estr-solved")];
    let trial = "estr-trial";
    let step = BootstrapStep::new(MarketIndex::ESTR, &trial, &solved, &policy, &store);
    assert_eq!(step.curves.len(), 2);
    let usd_leg = leg(Currency::USD, MarketIndex::ESTR, Date::new(2025, 1, 2));
    assert_eq!(step.discount_curve_for_leg(&usd_leg), Ok(&"sofr"));
    assert_eq!(step.forward_curve_for_leg(&usd_leg), Ok(Some(&"estr-trial")));
    let eur_leg = leg(Currency::EUR, MarketIndex::ICP, Date::new(2025, 1, 2));
    assert_eq!(
        step.discount_curve_for_leg(&eur_leg),
        Err(QSError::MissingCurve(MarketIndex::Collateral(Currency::EUR, Currency::USD)))
    );
    assert_eq!(step.forward_curve_for_leg(&eur_leg), Err(QSError::MissingCurve(MarketIndex::ICP)));
    assert_eq!(step.get(&MarketIndex::SOFR), Some(&"sofr"));
    assert_eq!(step.get(&MarketIndex::ICP), None);
    assert_eq!(step.fx_spot(Currency::EUR, Currency::USD), Ok(1.1));
    assert_eq!(step.fx_spot(Currency::USD, Currency::EUR), Err(QSError::MissingExchangeRate));
}

#[test]
fn settlement_date_is_earliest_disbursement() {
    let l = Leg::new(
        0,
        vec![
            CashflowType::Disbursement(SimpleCashflow::new(-1.0, Date::new(2024, 6, 3))),
            CashflowType::Redemption(SimpleCashflow::new(1.0, Date::new(2024, 1, 1))),
            CashflowType::Disbursement(SimpleCashflow::new(-1.0, Date::new(2024, 6, 1))),
        ],
        Currency::USD,
        None,
        None,
        None,
        Side::LongReceive,
        true,
    );
    assert_eq!(settlement_date(&l), Ok(Date::new(2024, 6, 1)));
    let no_disbursement = leg(Currency::USD, MarketIndex::SOFR, Date::new(2025, 1, 2));
    assert_eq!(settlement_date(&no_disbursement), Err(QSError::MissingDisbursement));
}

#[test]
fn pillar_selection_skips_past_and_repeated_maturities() {
    let rd = Date::new(2024, 6, 1);
    let quotes = vec![
        (QuoteInstrument::FixedRateDeposit, Date::new(2024, 9, 1)),
        (QuoteInstrument::OIS, Date::new(2024, 6, 1)),
        (QuoteInstrument::CapFloor, Date::new(2024, 9, 1)),
        (QuoteInstrument::OIS, Date::new(2025, 6, 1)),
        (QuoteInstrument::Swaption, Date::new(2023, 1, 1)),
    ];
    assert_eq!(select_pillars(rd, quotes), Ok(vec![0, 3]));
}

#[test]
fn pillar_selection_rejects_first_kept_quote_of_another_kind() {
    let rd = Date::new(2024, 6, 1);
    let quotes = vec![
        (QuoteInstrument::OIS, Date::new(2025, 6, 1)),
        (QuoteInstrument::BasisSwap, Date::new(2026, 6, 1)),
    ];
    assert_eq!(select_pillars(rd, quotes), Err(QSError::UnsupportedBootstrapQuote));
    assert_eq!(select_pillars(rd, Vec::new()), Ok(Vec::new()));
}
