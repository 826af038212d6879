use quantsupport::currency::Currency;
use quantsupport::flatforwardtermstructure::FlatForwardTermStructure;
use quantsupport::quote::{Level, Quote, QuoteDetails, QuoteInstrument, QuoteLevels};
use quantsupport::quotestore::QuoteStore;
use quantsupport::time::{Compounding, Date, DayCounter, Frequency, RateDefinition};

#[test]
fn flatforwardtermstructure_test_reference_date() {
    let reference_date = Date::new(2023, 8, 19);
    let term_structure = FlatForwardTermStructure::new(reference_date, 0.5, RateDefinition::default());
    assert_eq!(term_structure.reference_date(), reference_date);
}

#[test]
fn flat_forward_keeps_rate_and_definition() {
    let def = RateDefinition::new(DayCounter::Actual360, Compounding::Continuous, Frequency::Semiannual);
    let ts = FlatForwardTermStructure::new(Date::new(2023, 8, 19), 0.05, def).with_pillar_label("FLAT".to_string());
    assert_eq!(ts.value(), 0.05);
    assert_eq!(ts.rate_definition(), def);
    assert_eq!(ts.pillar_label, Some("FLAT".to_string()));
    assert_eq!(ts.pillars(), Some(vec![("FLAT".to_string(), 0.05)]));
    assert_eq!(ts.pillar_labels(), Some(vec!["FLAT".to_string()]));
    let unlabelled = FlatForwardTermStructure::new(Date::new(2023, 8, 19), 0.05, def);
    assert_eq!(unlabelled.pillars(), None);
    assert_eq!(unlabelled.pillar_labels(), None);
    assert_eq!(unlabelled.nodes(), None);
    assert_eq!(unlabelled.day_counter(), Some(DayCounter::Actual360));
}

fn q(id: &str, mid: f64) -> Quote<f64> {
    Quote::new(QuoteDetails::new(id.to_string(), QuoteInstrument::OIS), QuoteLevels::with_mid(mid))
}

#[test]
fn quote_store_reads_back_what_was_added() {
    let mut store: QuoteStore<f64> = QuoteStore::new(Date::new(2024, 6, 1));
    assert!(store.quote("USD_OIS_SOFR_1Y").is_none());
    store.add_quote(q("USD_OIS_SOFR_1Y", 0.05));
    store.add_quote(q("USD_OIS_SOFR_2Y", 0.045));
    assert_eq!(store.quote("USD_OIS_SOFR_1Y").unwrap().levels().value(Level::Mid), Ok(0.05));
    assert_eq!(store.quote("USD_OIS_SOFR_2Y").unwrap().levels().value(Level::Mid), Ok(0.045));
    assert_eq!(store.quotes().len(), 2);
    assert_eq!(store.reference_date(), Date::new(2024, 6, 1));
}

#[test]
fn quote_store_replaces_quote_with_same_identifier() {
    let mut store: QuoteStore<f64> = QuoteStore::new(Date::new(2024, 6, 1));
    store.add_quote(q("USD_OIS_SOFR_1Y", 0.05));
    store.add_quote(q("USD_OIS_SOFR_1Y", 0.06));
    assert_eq!(store.quotes().len(), 1);
    assert_eq!(store.quote("USD_OIS_SOFR_1Y").unwrap().levels().value(Level::Mid), Ok(0.06));
}

#[test]
fn quote_levels_fall_back_per_level() {
    let levels = QuoteLevels::new(None, Some(0.01), Some(0.03));
    assert_eq!(levels.value(Level::Bid), Ok(0.01));
    assert_eq!(levels.value(Level::Ask), Ok(0.03));
    let _ = Currency::USD;
}
