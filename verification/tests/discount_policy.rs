use std::collections::HashSet;

use quantsupport::bootstrapdiscountpolicy::BootstrapDiscountPolicy;
use quantsupport::cashflows::{AssetClass, CashflowType, Leg, Side, SimpleCashflow};
use quantsupport::currency::Currency;
use quantsupport::errors::QSError;
use quantsupport::marketindex::MarketIndex;
use quantsupport::time::Date;

#[test]
fn discount_policy_default_csa() {
    let policy = BootstrapDiscountPolicy::new(MarketIndex::SOFR, Currency::USD);
    assert_eq!(policy.csa_index(), MarketIndex::SOFR);
    assert_eq!(policy.csa_currency(), Currency::USD);
    assert_eq!(policy.discount_index_for_currency(Currency::USD), Ok(MarketIndex::SOFR));
}

#[test]
fn discount_policy_collateral_override() {
    let policy = BootstrapDiscountPolicy::new(MarketIndex::SOFR, Currency::USD)
        .with_collateral_curve(Currency::CLP, MarketIndex::Collateral(Currency::CLP, Currency::USD));
    assert_eq!(
        policy.discount_index_for_currency(Currency::CLP),
        Ok(MarketIndex::Collateral(Currency::CLP, Currency::USD))
    );
    assert_eq!(policy.discount_index_for_currency(Currency::USD), Ok(MarketIndex::SOFR));
}

#[test]
fn discount_policy_all_indices() {
    let policy = BootstrapDiscountPolicy::new(MarketIndex::SOFR, Currency::USD)
        .with_collateral_curve(Currency::CLP, MarketIndex::Collateral(Currency::CLP, Currency::USD));
    let indices = policy.all_discount_indices();
    assert!(indices.contains(&MarketIndex::SOFR));
    assert!(indices.contains(&MarketIndex::Collateral(Currency::CLP, Currency::USD)));
}

#[test]
fn collateral_market_index_display_and_parse() {
    let idx = MarketIndex::Collateral(Currency::CLP, Currency::USD);
    let s = idx.to_string();
    assert_eq!(s, "Collateral(CLP/USD)");
    let parsed: MarketIndex = MarketIndex::parse(&s).unwrap();
    assert_eq!(parsed, idx);
}

#[test]
fn collateral_market_index_hash_eq() {
    let a = MarketIndex::Collateral(Currency::CLP, Currency::USD);
    let b = MarketIndex::Collateral(Currency::CLP, Currency::USD);
    let c = MarketIndex::Collateral(Currency::EUR, Currency::USD);
    assert_eq!(a, b);
    assert_ne!(a, c);
    let mut set = HashSet::new();
    set.insert(a.clone());
    set.insert(b.clone());
    assert_eq!(set.len(), 1);
    set.insert(c);
    assert_eq!(set.len(), 2);
}

#[test]
fn foreign_currency_without_override_uses_collateral_against_csa() {
    let policy = BootstrapDiscountPolicy::new(MarketIndex::SOFR, Currency::USD);
    assert_eq!(
        policy.discount_index_for_currency(Currency::EUR),
        Ok(MarketIndex::Collateral(Currency::EUR, Currency::USD))
    );
}

#[test]
fn later_override_for_a_currency_replaces_the_earlier_one() {
    let policy = BootstrapDiscountPolicy::new(MarketIndex::SOFR, Currency::USD)
        .with_collateral_curve(Currency::CLP, MarketIndex::ICP)
        .with_collateral_curve(Currency::CLP, MarketIndex::Collateral(Currency::CLP, Currency::USD));
    assert_eq!(
        policy.discount_index_for_currency(Currency::CLP),
        Ok(MarketIndex::Collateral(Currency::CLP, Currency::USD))
    );
    assert_eq!(
        policy.all_discount_indices(),
        vec![MarketIndex::SOFR, MarketIndex::Collateral(Currency::CLP, Currency::USD)]
    );
}

fn leg(currency: Currency, discount: Option<MarketIndex>, class: AssetClass) -> Leg<f64> {
    Leg::new(
        0,
        vec![CashflowType::Redemption(SimpleCashflow::new(1.0, Date::new(2025, 1, 2)))],
        currency,
        Some(MarketIndex::ESTR),
        discount,
        None,
        Side::PayShort,
        true,
    )
    .with_asset_class(class)
}

#[test]
fn leg_discount_index_by_asset_class() {
    let policy = BootstrapDiscountPolicy::new(MarketIndex::SOFR, Currency::USD);
    assert_eq!(
        policy.discount_index(&leg(Currency::EUR, None, AssetClass::InterestRate)),
        Ok(MarketIndex::Collateral(Currency::EUR, Currency::USD))
    );
    assert_eq!(
        policy.discount_index(&leg(Currency::USD, None, AssetClass::Fx)),
        Ok(MarketIndex::SOFR)
    );
    assert_eq!(
        policy.discount_index(&leg(Currency::EUR, Some(MarketIndex::ICP), AssetClass::FixedIncome)),
        Ok(MarketIndex::ICP)
    );
    assert_eq!(
        policy.discount_index(&leg(Currency::EUR, None, AssetClass::Equity)),
        Err(QSError::UnsupportedAssetClass(AssetClass::Equity))
    );
}

#[test]
fn currency_codes_read_back_as_the_same_currency() {
    let all = [
        Currency::USD,
        Currency::EUR,
        Currency::GBP,
        Currency::JPY,
        Currency::CHF,
        Currency::CAD,
        Currency::AUD,
        Currency::CNY,
        Currency::BRL,
        Currency::MXN,
        Currency::CLP,
        Currency::CLF,
        Currency::COP,
        Currency::PEN,
    ];
    for c in all {
        assert_eq!(Currency::from_code(c.code()), Ok(c));
    }
    assert_eq!(Currency::from_code("usd"), Err(QSError::UnknownCurrency));
}

#[test]
fn market_index_text_reads_back_as_the_same_index() {
    let all = vec![
        MarketIndex::SOFR,
        MarketIndex::TermSOFR3m,
        MarketIndex::TermSOFR6m,
        MarketIndex::ESTR,
        MarketIndex::EURIBOR1m,
        MarketIndex::ICP,
        MarketIndex::Collateral(Currency::EUR, Currency::USD),
        MarketIndex::Equity("SPX".to_string()),
        MarketIndex::Other("X_Y".to_string()),
    ];
    for i in all {
        assert_eq!(MarketIndex::parse(&i.to_string()), Ok(i.clone()));
    }
    assert_eq!(MarketIndex::parse("LIB-OR"), Err(QSError::UnknownMarketIndex));
    assert_eq!(MarketIndex::parse(""), Err(QSError::UnknownMarketIndex));
}
