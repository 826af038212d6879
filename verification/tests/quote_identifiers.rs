use quantsupport::currency::Currency;
use quantsupport::errors::QSError;
use quantsupport::marketindex::MarketIndex;
use quantsupport::quote::{OptionStrategy, QuoteDetails, QuoteInstrument, StrikeType, VolatilityType};
use quantsupport::quoteidentifier::{is_float, parse_tenor, split_underscores, ParsedIdentifier};
use quantsupport::time::{Period, TimeUnit};

fn parse(s: &str) -> ParsedIdentifier<f64> {
    QuoteDetails::<f64>::parse(s).unwrap()
}

fn strike(p: &ParsedIdentifier<f64>) -> Option<f64> {
    p.strike_text.as_deref().map(|t| t.parse::<f64>().unwrap())
}

#[test]
fn parse_ois_identifier() {
    let det = parse("USD_OIS_SOFR_1Y").details;
    assert_eq!(det.identifier(), "USD_OIS_SOFR_1Y");
    assert_eq!(*det.instrument(), QuoteInstrument::OIS);
    assert_eq!(det.currency(), Some(Currency::USD));
    assert_eq!(det.market_index(), Some(&MarketIndex::SOFR));
}

#[test]
fn parse_deposit_identifier() {
    let det = parse("USD_FixedRateDeposit_SOFR_6M").details;
    assert_eq!(*det.instrument(), QuoteInstrument::FixedRateDeposit);
}

#[test]
fn parse_basis_swap_identifier() {
    let det = parse("USD_BasisSwap_SOFR_TermSOFR3m_1Y").details;
    assert_eq!(*det.instrument(), QuoteInstrument::BasisSwap);
    assert!(det.secondary_market_index().is_some());
}

#[test]
fn parse_future_identifier() {
    let det = parse("USD_Future_SOFR_H6").details;
    assert_eq!(*det.instrument(), QuoteInstrument::Future);
    assert_eq!(det.contract_code(), Some("H6"));
}

#[test]
fn parse_convexity_adjustment_identifier() {
    let det = parse("USD_ConvexityAdjustment_SOFR_M6").details;
    assert_eq!(*det.instrument(), QuoteInstrument::ConvexityAdjustment);
}

#[test]
fn parse_cap_floor_identifier() {
    let p = parse("USD_CapFloor_SOFR_1Y_Absolute_Black");
    assert_eq!(*p.details.instrument(), QuoteInstrument::CapFloor);
    assert!(strike(&p).is_none());
    let p2 = parse("USD_CapFloor_SOFR_1Y_Absolute_0.03_Black");
    assert_eq!(strike(&p2), Some(0.03));
}

#[test]
fn parse_caplet_floorlet_identifier() {
    let p = parse("USD_CapletFloorlet_TermSOFR3m_3M_3M_Absolute_0.010_Straddle_Black");
    assert_eq!(*p.details.instrument(), QuoteInstrument::CapletFloorlet);
    assert_eq!(strike(&p), Some(0.010));
}

#[test]
fn parse_swaption_identifier() {
    let det = parse("USD_Swaption_SOFR_3M_2Y_Absolute_Black").details;
    assert_eq!(*det.instrument(), QuoteInstrument::Swaption);
}

#[test]
fn parse_outright_forward_identifier() {
    let det = parse("EURUSD_OutrightForward_1M").details;
    assert_eq!(*det.instrument(), QuoteInstrument::OutrightForward);
    assert_eq!(det.pay_currency(), Some(Currency::EUR));
    assert_eq!(det.receive_currency(), Some(Currency::USD));
}

#[test]
fn parse_forward_points_identifier() {
    let det = parse("EURUSD_ForwardPoints_1Y").details;
    assert_eq!(*det.instrument(), QuoteInstrument::ForwardPoints);
}

#[test]
fn parse_cross_currency_swap_identifier() {
    let det = parse("USD_CrossCurrencySwap_SOFR_ICP_CLP_1Y").details;
    assert_eq!(*det.instrument(), QuoteInstrument::CrossCurrencySwap);
    assert_eq!(det.pay_currency(), Some(Currency::USD));
    assert_eq!(det.receive_currency(), Some(Currency::CLP));
}

#[test]
fn parse_call_identifier() {
    let p = parse("USD_Call_SPX_1Y_5000");
    assert_eq!(*p.details.instrument(), QuoteInstrument::Call);
    assert_eq!(strike(&p), Some(5000.0));
}

#[test]
fn parse_put_identifier() {
    let p = parse("USD_Put_SPX_1Y_4500");
    assert_eq!(*p.details.instrument(), QuoteInstrument::Put);
    assert_eq!(strike(&p), Some(4500.0));
}

#[test]
fn bare_ticker_parses_as_equity_index() {
    let p = parse("USD_Call_SPX_1Y_5000");
    assert_eq!(p.details.market_index(), Some(&MarketIndex::Equity("SPX".to_string())));
    assert_eq!(MarketIndex::parse("SPX"), Ok(MarketIndex::Equity("SPX".to_string())));
    assert_eq!(MarketIndex::parse("Equity(SPX)"), Ok(MarketIndex::Equity("SPX".to_string())));
    assert_eq!(MarketIndex::parse("SOFR"), Ok(MarketIndex::SOFR));
}

#[test]
fn instrument_first_identifiers_parse_as_currency_first() {
    let a = parse("OIS_USD_SOFR_1Y").details;
    assert_eq!(a.identifier(), "OIS_USD_SOFR_1Y");
    assert_eq!(*a.instrument(), QuoteInstrument::OIS);
    assert_eq!(a.market_index(), Some(&MarketIndex::SOFR));
    assert_eq!(a.currency(), Some(Currency::USD));
    assert_eq!(a.tenor(), Some(Period::new(1, TimeUnit::Years)));
    let d = parse("FixedRateDeposit_USD_SOFR_3M").details;
    assert_eq!(*d.instrument(), QuoteInstrument::FixedRateDeposit);
    assert_eq!(d.market_index(), Some(&MarketIndex::SOFR));
    let f = parse("OutrightForward_EURUSD_1M").details;
    assert_eq!(f.pay_currency(), Some(Currency::EUR));
    assert_eq!(f.receive_currency(), Some(Currency::USD));
    let b = parse("BasisSwap_USD_SOFR_TermSOFR3m_1Y").details;
    assert_eq!(b.secondary_market_index(), Some(&MarketIndex::TermSOFR3m));
    assert_eq!(QuoteDetails::<f64>::parse("Bond_USD_SOFR_1Y").err(), Some(QSError::UnknownQuoteInstrument));
}

#[test]
fn parsed_fields_of_a_full_caplet_identifier() {
    let p = parse("USD_CapletFloorlet_TermSOFR3m_3M_6M_Relative_Strangle_Normal");
    let d = &p.details;
    assert_eq!(d.market_index(), Some(&MarketIndex::TermSOFR3m));
    assert_eq!(d.index_tenor(), Some(Period::new(3, TimeUnit::Months)));
    assert_eq!(d.option_expiry(), Some(Period::new(6, TimeUnit::Months)));
    assert_eq!(d.strike_type(), Some(StrikeType::Relative));
    assert_eq!(d.strategy(), Some(OptionStrategy::Strangle));
    assert_eq!(d.vol_type(), Some(&VolatilityType::Normal));
    assert!(p.strike_text.is_none());
}

#[test]
fn ois_identifier_keeps_its_market_index() {
    let d = parse("USD_OIS_SOFR_10Y").details;
    assert_eq!(d.market_index(), Some(&MarketIndex::SOFR));
    assert_eq!(d.tenor(), Some(Period::new(10, TimeUnit::Years)));
}

#[test]
fn identifier_errors() {
    assert_eq!(QuoteDetails::<f64>::parse("USD_OIS").err(), Some(QSError::MalformedIdentifier));
    assert_eq!(QuoteDetails::<f64>::parse("USD_OIS_SOFR").err(), Some(QSError::MalformedIdentifier));
    assert_eq!(QuoteDetails::<f64>::parse("USD_Bond_SOFR_1Y").err(), Some(QSError::UnknownQuoteInstrument));
    assert_eq!(QuoteDetails::<f64>::parse("XXX_OIS_SOFR_1Y").err(), Some(QSError::UnknownCurrency));
    assert_eq!(QuoteDetails::<f64>::parse("USD_OIS_SO-FR_1Y").err(), Some(QSError::UnknownMarketIndex));
    assert_eq!(QuoteDetails::<f64>::parse("USD_OIS_SOFR_1Q").err(), Some(QSError::InvalidTenor));
    assert_eq!(QuoteDetails::<f64>::parse("USD_Call_SPX_1Y_abc").err(), Some(QSError::InvalidStrike));
    assert_eq!(QuoteDetails::<f64>::parse("USD_CapFloor_SOFR_1Y_Absolute_0.03").err(), Some(QSError::MalformedIdentifier));
    assert_eq!(QuoteDetails::<f64>::parse("USD_CapFloor_SOFR_1Y_Fixed_Black").err(), Some(QSError::UnknownStrikeType));
    assert_eq!(QuoteDetails::<f64>::parse("USD_Swaption_SOFR_3M_2Y_Absolute_Lognormal").err(), Some(QSError::UnknownVolatilityType));
    assert_eq!(
        QuoteDetails::<f64>::parse("USD_CapletFloorlet_TermSOFR3m_3M_3M_Absolute_0.01_Calendar_Black").err(),
        Some(QSError::UnknownOptionStrategy)
    );
    assert_eq!(QuoteDetails::<f64>::parse("EURUS_OutrightForward_1M").err(), Some(QSError::MalformedIdentifier));
}

#[test]
fn tenors_and_numbers() {
    assert_eq!(parse_tenor("3M"), Ok(Period::new(3, TimeUnit::Months)));
    assert_eq!(parse_tenor("2W"), Ok(Period::new(2, TimeUnit::Weeks)));
    assert_eq!(parse_tenor("1D"), Ok(Period::new(1, TimeUnit::Days)));
    assert_eq!(parse_tenor("2147483647Y"), Ok(Period::new(2147483647, TimeUnit::Years)));
    assert_eq!(parse_tenor("2147483648Y"), Err(QSError::InvalidTenor));
    assert_eq!(parse_tenor("Y"), Err(QSError::InvalidTenor));
    assert_eq!(parse_tenor("1.5Y"), Err(QSError::InvalidTenor));
    for t in ["5000", "0.03", ".5", "5.", "-1e-3", "+2E10", "inf", "-Infinity", "NaN"] {
        assert!(is_float(t), "{t}");
        assert!(t.parse::<f64>().is_ok(), "{t}");
    }
    for t in ["", ".", "e5", "1e", "1.2.3", "Black", "1e+", "--1", "infinit"] {
        assert!(!is_float(t), "{t}");
        assert!(t.parse::<f64>().is_err(), "{t}");
    }
}

#[test]
fn splitting_keeps_empty_segments() {
    assert_eq!(split_underscores("a__b_"), vec!["a", "", "b", ""]);
    assert_eq!(split_underscores(""), vec![""]);
}
