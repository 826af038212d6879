//! Cashflows and legs.
use vstd::prelude::*;

use crate::currency::Currency;
use crate::errors::QSError;
use crate::marketindex::MarketIndex;
use crate::time::{date_le, date_max, Date};

verus! {

/// Asset class of a leg or instrument.
#[derive(Clone, Copy, Debug, PartialEq, Eq, Structural)]
pub enum AssetClass {
    FixedIncome,
    InterestRate,
    Fx,
    Equity,
    Commodity,
    Credit,
}

/// Whether the holder receives (long) or pays (short).
#[derive(Clone, Copy, Debug, PartialEq, Eq, Structural)]
pub enum Side {
    LongReceive,
    PayShort,
}

/// An amount paid on a date. `T` is the numeric type of the amount.
#[derive(Clone, Copy, Debug, PartialEq)]
pub struct SimpleCashflow<T> {
    pub amount: T,
    pub payment_date: Date,
}

impl<T: Copy> SimpleCashflow<T> {
    /// Creates a cashflow of `amount` paid on `payment_date`.
    pub fn new(amount: T, payment_date: Date) -> (r: SimpleCashflow<T>)
        ensures
            r.amount == amount,
            r.payment_date == payment_date,
    {
        SimpleCashflow { amount, payment_date }
    }

    /// The amount of the cashflow.
    pub fn amount(&self) -> (r: Result<T, QSError>)
        ensures
            r == Ok::<T, QSError>(self.amount),
    {
        Ok(self.amount)
    }

    /// The payment date of the cashflow.
    pub fn payment_date(&self) -> (r: Date)
        ensures
            r == self.payment_date,
    {
        self.payment_date
    }
}

/// The kinds of cashflow a leg carries.
#[derive(Clone, Copy, Debug, PartialEq)]
pub enum CashflowType<T> {
    FixedRateCoupon(SimpleCashflow<T>),
    FloatingRateCoupon(SimpleCashflow<T>),
    OptionEmbeddedCoupon(SimpleCashflow<T>),
    Redemption(SimpleCashflow<T>),
    Disbursement(SimpleCashflow<T>),
}

impl<T> CashflowType<T> {
    /// The underlying amount and date.
    pub open spec fn flow(self) -> SimpleCashflow<T> {
        match self {
            CashflowType::FixedRateCoupon(c) => c,
            CashflowType::FloatingRateCoupon(c) => c,
            CashflowType::OptionEmbeddedCoupon(c) => c,
            CashflowType::Redemption(c) => c,
            CashflowType::Disbursement(c) => c,
        }
    }

    /// The payment date of the cashflow.
    pub fn payment_date(&self) -> (r: Date)
        ensures
            r == self.flow().payment_date,
    {
        match self {
            CashflowType::FixedRateCoupon(c) => c.payment_date,
            CashflowType::FloatingRateCoupon(c) => c.payment_date,
            CashflowType::OptionEmbeddedCoupon(c) => c.payment_date,
            CashflowType::Redemption(c) => c.payment_date,
            CashflowType::Disbursement(c) => c.payment_date,
        }
    }
}

/// The latest payment date among `cfs`, if there is any cashflow.
pub open spec fn latest_payment<T>(cfs: Seq<CashflowType<T>>) -> Option<Date>
    decreases cfs.len(),
{
    if cfs.len() == 0 {
        None
    } else {
        match latest_payment(cfs.drop_last()) {
            None => Some(cfs.last().flow().payment_date),
            Some(d) => Some(date_max(d, cfs.last().flow().payment_date)),
        }
    }
}

/// The latest payment date is one of the payment dates and no payment date is later.
pub proof fn lemma_latest_payment<T>(cfs: Seq<CashflowType<T>>)
    ensures
        cfs.len() == 0 <==> latest_payment(cfs) is None,
        latest_payment(cfs) matches Some(d) ==> (exists|i: int|
            0 <= i < cfs.len() && #[trigger] cfs[i].flow().payment_date == d),
        latest_payment(cfs) matches Some(d) ==> (forall|i: int|
            0 <= i < cfs.len() ==> date_le(#[trigger] cfs[i].flow().payment_date, d)),
    decreases cfs.len(),
{
    if cfs.len() > 0 {
        let init = cfs.drop_last();
        lemma_latest_payment(init);
        let last = cfs.last().flow().payment_date;
        match latest_payment(init) {
            None => {
                assert(cfs[cfs.len() - 1].flow().payment_date == last);
            },
            Some(d) => {
                let w = choose|i: int| 0 <= i < init.len() && #[trigger] init[i].flow().payment_date == d;
                assert(cfs[w] == init[w]);
                assert(cfs[cfs.len() - 1].flow().payment_date == last);
                assert forall|i: int| 0 <= i < cfs.len() implies date_le(
                    #[trigger] cfs[i].flow().payment_date,
                    date_max(d, last),
                ) by {
                    if i < cfs.len() - 1 {
                        assert(cfs[i] == init[i]);
                    }
                }
            },
        }
    }
}

/// A leg: a sequence of cashflows in one currency, with the index it is
/// projected or discounted on.
#[derive(Clone, Debug)]
pub struct Leg<T> {
    pub leg_id: usize,
    pub cashflows: Vec<CashflowType<T>>,
    pub currency: Currency,
    pub market_index: Option<MarketIndex>,
    pub discount_index: Option<MarketIndex>,
    pub fx_parity: Option<T>,
    pub side: Side,
    pub is_linear: bool,
    pub asset_class: AssetClass,
}

impl<T: Copy> Leg<T> {
    /// Creates a leg. Its asset class is [`AssetClass::InterestRate`] until set otherwise.
    pub fn new(
        leg_id: usize,
        cashflows: Vec<CashflowType<T>>,
        currency: Currency,
        market_index: Option<MarketIndex>,
        discount_index: Option<MarketIndex>,
        fx_parity: Option<T>,
        side: Side,
        is_linear: bool,
    ) -> (r: Leg<T>)
        ensures
            r.leg_id == leg_id,
            r.cashflows@ == cashflows@,
            r.currency == currency,
            r.market_index == market_index,
            r.discount_index == discount_index,
            r.fx_parity == fx_parity,
            r.side == side,
            r.is_linear == is_linear,
            r.asset_class == AssetClass::InterestRate,
    {
        Leg {
            leg_id,
            cashflows,
            currency,
            market_index,
            discount_index,
            fx_parity,
            side,
            is_linear,
            asset_class: AssetClass::InterestRate,
        }
    }

    /// The leg with its FX parity set to `parity`.
    pub fn with_fx_parity(self, parity: T) -> (r: Leg<T>)
        ensures
            r == (Leg { fx_parity: Some(parity), ..self }),
    {
        Leg { fx_parity: Some(parity), ..self }
    }

    /// The leg with its asset class set to `asset_class`.
    pub fn with_asset_class(self, asset_class: AssetClass) -> (r: Leg<T>)
        ensures
            r == (Leg { asset_class, ..self }),
    {
        Leg { asset_class, ..self }
    }

    /// The identifier of the leg.
    pub fn leg_id(&self) -> (r: usize)
        ensures
            r == self.leg_id,
    {
        self.leg_id
    }

    /// The cashflows of the leg.
    pub fn cashflows(&self) -> (r: &Vec<CashflowType<T>>)
        ensures
            r == &self.cashflows,
    {
        &self.cashflows
    }

    /// The currency of the leg.
    pub fn currency(&self) -> (r: Currency)
        ensures
            r == self.currency,
    {
        self.currency
    }

    /// The index the leg is projected on, if any.
    pub fn market_index(&self) -> (r: Option<&MarketIndex>)
        ensures
            r is Some <==> self.market_index is Some,
            r matches Some(x) ==> self.market_index == Some(*x),
    {
        self.market_index.as_ref()
    }

    /// The index the leg is discounted on, if one was given.
    pub fn discount_index(&self) -> (r: Option<&MarketIndex>)
        ensures
            r is Some <==> self.discount_index is Some,
            r matches Some(x) ==> self.discount_index == Some(*x),
    {
        self.discount_index.as_ref()
    }

    /// The FX parity that converts the leg's amounts, if one was set.
    pub fn fx_parity(&self) -> (r: Option<T>)
        ensures
            r == self.fx_parity,
    {
        self.fx_parity
    }

    /// The side of the leg.
    pub fn side(&self) -> (r: Side)
        ensures
            r == self.side,
    {
        self.side
    }

    /// Whether the leg's payoff is linear.
    pub fn is_linear(&self) -> (r: bool)
        ensures
            r == self.is_linear,
    {
        self.is_linear
    }

    /// The asset class of the leg.
    pub fn asset_class(&self) -> (r: AssetClass)
        ensures
            r == self.asset_class,
    {
        self.asset_class
    }

    /// The latest payment date of the leg; `None` for a leg without cashflows.
    pub fn last_payment_date(&self) -> (r: Option<Date>)
        ensures
            r == latest_payment(self.cashflows@),
    {
        let n = self.cashflows.len();
        let mut latest: Option<Date> = None;
        let mut i: usize = 0;
        while i < n
            invariant
                n == self.cashflows@.len(),
                i <= n,
                latest == latest_payment(self.cashflows@.subrange(0, i as int)),
            decreases n - i,
        {
            let d = self.cashflows[i].payment_date();
            latest = match latest {
                None => Some(d),
                Some(l) => Some(l.max(d)),
            };
            assert(self.cashflows@.subrange(0, i + 1).drop_last() =~= self.cashflows@.subrange(0, i as int));
            i = i + 1;
        }
        assert(self.cashflows@.subrange(0, n as int) =~= self.cashflows@);
        latest
    }
}

} // verus!
