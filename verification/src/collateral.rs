//! Discount policies: which curve discounts a leg or a currency.
use vstd::prelude::*;

use crate::cashflows::Leg;
use crate::currency::Currency;
use crate::errors::QSError;
use crate::marketindex::{IndexKey, MarketIndex};

verus! {

/// The curve that discounts cashflows in `ccy` under a single CSA in `csa_currency`
/// whose own-currency curve is `csa_index`: the CSA curve itself for the CSA currency,
/// the collateral curve `Collateral(ccy, csa_currency)` for any other currency.
pub open spec fn csa_discount_index(csa_index: IndexKey, csa_currency: Currency, ccy: Currency) -> IndexKey {
    if ccy == csa_currency {
        csa_index
    } else {
        IndexKey::Collateral(ccy, csa_currency)
    }
}

/// Under a CSA, cashflows in the CSA currency are discounted on the CSA curve
/// and those in any other currency on that currency's collateral curve
/// against the CSA currency.
pub proof fn lemma_csa_rule(csa_index: IndexKey, csa_currency: Currency, ccy: Currency)
    ensures
        csa_discount_index(csa_index, csa_currency, csa_currency) == csa_index,
        ccy != csa_currency ==> csa_discount_index(csa_index, csa_currency, ccy) == IndexKey::Collateral(ccy, csa_currency),
{
}

/// A fixed-income leg is discounted on the discount index it names; without
/// one, on the index it refers to when the policy allows it; otherwise on none.
pub proof fn lemma_fixed_income_discounting<T>(leg: Leg<T>, use_market_index: bool)
    ensures
        leg.discount_index matches Some(i) ==> fixed_income_discount_index(leg, use_market_index) == Some(i@),
        leg.discount_index is None && use_market_index ==> (leg.market_index matches Some(m)
            ==> fixed_income_discount_index(leg, use_market_index) == Some(m@)),
        leg.discount_index is None && (!use_market_index || leg.market_index is None)
            ==> fixed_income_discount_index(leg, use_market_index) is None,
{
}

/// Discounting under a single CSA curve.
#[derive(Clone, Debug)]
pub struct SingleCurveCSADiscountPolicy {
    pub csa_index: MarketIndex,
    pub csa_currency: Currency,
}

impl SingleCurveCSADiscountPolicy {
    /// Creates the policy for the CSA curve `csa_index` in `csa_currency`.
    pub fn new(csa_index: MarketIndex, csa_currency: Currency) -> (r: SingleCurveCSADiscountPolicy)
        ensures
            r.csa_index == csa_index,
            r.csa_currency == csa_currency,
    {
        SingleCurveCSADiscountPolicy { csa_index, csa_currency }
    }

    /// The curves this policy may discount on; the CSA curve comes first.
    pub fn discount_indices(&self) -> (r: Vec<MarketIndex>)
        ensures
            r@.len() == 1,
            r@[0]@ == self.csa_index@,
    {
        let mut v: Vec<MarketIndex> = Vec::new();
        v.push(self.csa_index.duplicate());
        v
    }

    /// The curve that discounts cashflows in `ccy`.
    pub fn accept_currency(&self, ccy: Currency) -> (r: MarketIndex)
        ensures
            r@ == csa_discount_index(self.csa_index@, self.csa_currency, ccy),
    {
        if ccy == self.csa_currency {
            self.csa_index.duplicate()
        } else {
            MarketIndex::Collateral(ccy, self.csa_currency)
        }
    }
}

/// The curve a fixed-income leg is discounted on: its own discount index,
/// else, when `use_market_index` holds, the index it refers to.
pub open spec fn fixed_income_discount_index<T>(leg: Leg<T>, use_market_index: bool) -> Option<IndexKey> {
    match leg.discount_index {
        Some(i) => Some(i@),
        None => if use_market_index {
            match leg.market_index {
                Some(i) => Some(i@),
                None => None,
            }
        } else {
            None
        },
    }
}

/// Discounting of fixed-income legs on the curve that the leg names.
#[derive(Clone, Copy, Debug)]
pub struct FixedIncomeDiscountPolicy {
    pub use_market_index: bool,
}

impl FixedIncomeDiscountPolicy {
    /// Creates the policy.
    pub fn new(use_market_index: bool) -> (r: FixedIncomeDiscountPolicy)
        ensures
            r.use_market_index == use_market_index,
    {
        FixedIncomeDiscountPolicy { use_market_index }
    }

    /// The curve that discounts `leg`.
    pub fn accept<T: Copy>(&self, leg: &Leg<T>) -> (r: Result<MarketIndex, QSError>)
        ensures
            fixed_income_discount_index(*leg, self.use_market_index) matches Some(k) ==> (r matches Ok(i) && i@ == k),
            fixed_income_discount_index(*leg, self.use_market_index) is None ==> r == Err::<MarketIndex, QSError>(QSError::MissingDiscountIndex),
    {
        match leg.discount_index() {
            Some(i) => Ok(i.duplicate()),
            None => if self.use_market_index {
                match leg.market_index() {
                    Some(i) => Ok(i.duplicate()),
                    None => Err(QSError::MissingDiscountIndex),
                }
            } else {
                Err(QSError::MissingDiscountIndex)
            },
        }
    }
}

} // verus!
