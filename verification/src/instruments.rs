//! The instruments a quote can be built into, as far as curve construction
//! needs to know them: their legs, the indices they refer to and their dates.
use vstd::prelude::*;

use crate::cashflows::{latest_payment, lemma_latest_payment, Leg};
use crate::currency::Currency;
use crate::errors::QSError;
use crate::marketindex::MarketIndex;
use crate::time::{date_le, date_max, lemma_date_order, Date};

verus! {

/// A fixed-rate deposit.
#[derive(Clone, Debug)]
pub struct FixedRateDeposit<T> {
    pub leg: Leg<T>,
    pub discount_index: Option<MarketIndex>,
}

/// A fixed-vs-floating interest rate swap.
#[derive(Clone, Debug)]
pub struct Swap<T> {
    pub fixed_leg: Leg<T>,
    pub floating_leg: Leg<T>,
    pub forward_index: MarketIndex,
}

/// A floating-vs-floating basis swap.
#[derive(Clone, Debug)]
pub struct BasisSwap<T> {
    pub pay_leg: Leg<T>,
    pub receive_leg: Leg<T>,
    pub pay_forward_index: MarketIndex,
    pub receive_forward_index: MarketIndex,
}

/// A cross-currency swap paying fixed in one currency against floating in another.
#[derive(Clone, Debug)]
pub struct FixFloatCrossCurrencySwap<T> {
    pub domestic_leg: Leg<T>,
    pub foreign_leg: Leg<T>,
    pub forward_index: MarketIndex,
}

/// A cross-currency swap with floating legs in both currencies.
#[derive(Clone, Debug)]
pub struct FloatFloatCrossCurrencySwap<T> {
    pub domestic_leg: Leg<T>,
    pub foreign_leg: Leg<T>,
    pub domestic_forward_index: MarketIndex,
    pub foreign_forward_index: MarketIndex,
}

/// A rate futures contract on the rate of `market_index` between two dates.
#[derive(Clone, Debug)]
pub struct RateFutures {
    pub market_index: MarketIndex,
    pub start_date: Date,
    pub end_date: Date,
}

/// An FX outright forward exchanging `base_currency` for `quote_currency`.
#[derive(Clone, Copy, Debug)]
pub struct FxForward {
    pub base_currency: Currency,
    pub quote_currency: Currency,
    pub delivery_date: Date,
}

/// A European option on the underlying `market_index`.
#[derive(Clone, Debug)]
pub struct EuropeanOption {
    pub market_index: MarketIndex,
    pub expiry_date: Date,
}

/// An interest rate cap or floor.
#[derive(Clone, Debug)]
pub struct CapFloor<T> {
    pub leg: Leg<T>,
}

/// A swaption: an option, expiring on `expiry_date`, to enter `underlying`.
#[derive(Clone, Debug)]
pub struct Swaption<T> {
    pub underlying: Swap<T>,
    pub expiry_date: Date,
}

/// Every concrete instrument that can be produced from a quote.
#[derive(Clone, Debug)]
pub enum BuiltInstrument<T> {
    FixedRateDeposit(FixedRateDeposit<T>),
    Swap(Swap<T>),
    BasisSwap(BasisSwap<T>),
    FixFloatCrossCurrencySwap(FixFloatCrossCurrencySwap<T>),
    FloatFloatCrossCurrencySwap(FloatFloatCrossCurrencySwap<T>),
    RateFutures(RateFutures),
    FxForward(FxForward),
    Call(EuropeanOption),
    Put(EuropeanOption),
    CapFloor(CapFloor<T>),
    Swaption(Swaption<T>),
}

/// The instruments a curve is calibrated to.
pub type CalibrationInstrumentType<T> = BuiltInstrument<T>;

/// The later of the last payment dates of two legs; `None` if either has no cashflow.
pub open spec fn two_leg_pillar<T>(a: Leg<T>, b: Leg<T>) -> Option<Date> {
    match (latest_payment(a.cashflows@), latest_payment(b.cashflows@)) {
        (Some(x), Some(y)) => Some(date_max(x, y)),
        _ => None,
    }
}

/// The pillar date of an instrument used for curve calibration: the last
/// payment date of its legs, the end of a futures' accrual period, or the
/// delivery date of an FX forward. Options have none.
pub open spec fn instrument_pillar<T>(b: BuiltInstrument<T>) -> Option<Date> {
    match b {
        BuiltInstrument::FixedRateDeposit(x) => latest_payment(x.leg.cashflows@),
        BuiltInstrument::Swap(x) => two_leg_pillar(x.fixed_leg, x.floating_leg),
        BuiltInstrument::BasisSwap(x) => two_leg_pillar(x.pay_leg, x.receive_leg),
        BuiltInstrument::FixFloatCrossCurrencySwap(x) => two_leg_pillar(x.domestic_leg, x.foreign_leg),
        BuiltInstrument::FloatFloatCrossCurrencySwap(x) => two_leg_pillar(x.domestic_leg, x.foreign_leg),
        BuiltInstrument::RateFutures(x) => Some(x.end_date),
        BuiltInstrument::FxForward(x) => Some(x.delivery_date),
        _ => None,
    }
}

/// The pillar date of a leg-based instrument is the latest payment date over
/// its legs: a payment date of one of them, with no payment of either leg
/// later, and there is one exactly when every leg pays something. A rate
/// futures calibrates the end of its accrual period, an FX forward its
/// delivery date; options, caps and swaptions calibrate no pillar.
pub proof fn lemma_pillar_dates<T>(b: BuiltInstrument<T>)
    ensures
        b matches BuiltInstrument::RateFutures(x) ==> instrument_pillar(b) == Some(x.end_date),
        b matches BuiltInstrument::FxForward(x) ==> instrument_pillar(b) == Some(x.delivery_date),
        (b is Call || b is Put || b is CapFloor || b is Swaption) ==> instrument_pillar(b) is None,
        b matches BuiltInstrument::FixedRateDeposit(x) ==> {
            &&& (instrument_pillar(b) is Some <==> x.leg.cashflows@.len() > 0)
            &&& instrument_pillar(b) matches Some(d) ==> {
                &&& exists|i: int| 0 <= i < x.leg.cashflows@.len() && #[trigger] x.leg.cashflows@[i].flow().payment_date == d
                &&& forall|i: int| 0 <= i < x.leg.cashflows@.len() ==> date_le(#[trigger] x.leg.cashflows@[i].flow().payment_date, d)
            }
        },
        two_leg_of(b) matches Some((l1, l2)) ==> {
            &&& (instrument_pillar(b) is Some <==> l1.cashflows@.len() > 0 && l2.cashflows@.len() > 0)
            &&& instrument_pillar(b) matches Some(d) ==> {
                &&& (exists|i: int| 0 <= i < l1.cashflows@.len() && #[trigger] l1.cashflows@[i].flow().payment_date == d)
                    || (exists|i: int| 0 <= i < l2.cashflows@.len() && #[trigger] l2.cashflows@[i].flow().payment_date == d)
                &&& forall|i: int| 0 <= i < l1.cashflows@.len() ==> date_le(#[trigger] l1.cashflows@[i].flow().payment_date, d)
                &&& forall|i: int| 0 <= i < l2.cashflows@.len() ==> date_le(#[trigger] l2.cashflows@[i].flow().payment_date, d)
            }
        },
{
    match b {
        BuiltInstrument::FixedRateDeposit(x) => {
            lemma_latest_payment(x.leg.cashflows@);
        },
        _ => {
            if let Some((l1, l2)) = two_leg_of(b) {
                lemma_latest_payment(l1.cashflows@);
                lemma_latest_payment(l2.cashflows@);
                if let (Some(u), Some(v)) = (latest_payment(l1.cashflows@), latest_payment(l2.cashflows@)) {
                    lemma_date_order(u, v, v);
                    assert forall|i: int| 0 <= i < l1.cashflows@.len() implies date_le(#[trigger] l1.cashflows@[i].flow().payment_date, date_max(u, v)) by {
                        lemma_date_order(l1.cashflows@[i].flow().payment_date, u, v);
                        lemma_date_order(l1.cashflows@[i].flow().payment_date, u, date_max(u, v));
                    }
                    assert forall|i: int| 0 <= i < l2.cashflows@.len() implies date_le(#[trigger] l2.cashflows@[i].flow().payment_date, date_max(u, v)) by {
                        lemma_date_order(l2.cashflows@[i].flow().payment_date, v, u);
                        lemma_date_order(l2.cashflows@[i].flow().payment_date, v, date_max(u, v));
                    }
                }
            }
        },
    }
}

/// The two legs of a two-leg instrument (swaps of every kind), in the order
/// the instrument names them.
pub open spec fn two_leg_of<T>(b: BuiltInstrument<T>) -> Option<(Leg<T>, Leg<T>)> {
    match b {
        BuiltInstrument::Swap(x) => Some((x.fixed_leg, x.floating_leg)),
        BuiltInstrument::BasisSwap(x) => Some((x.pay_leg, x.receive_leg)),
        BuiltInstrument::FixFloatCrossCurrencySwap(x) => Some((x.domestic_leg, x.foreign_leg)),
        BuiltInstrument::FloatFloatCrossCurrencySwap(x) => Some((x.domestic_leg, x.foreign_leg)),
        _ => None,
    }
}

fn two_leg_last_payment<T: Copy>(a: &Leg<T>, b: &Leg<T>) -> (r: Result<Date, QSError>)
    ensures
        two_leg_pillar(*a, *b) matches Some(d) ==> r == Ok::<Date, QSError>(d),
        two_leg_pillar(*a, *b) is None ==> r == Err::<Date, QSError>(QSError::UnsupportedInstrument),
{
    match (a.last_payment_date(), b.last_payment_date()) {
        (Some(x), Some(y)) => Ok(x.max(y)),
        _ => Err(QSError::UnsupportedInstrument),
    }
}

impl<T: Copy> BuiltInstrument<T> {
    /// The pillar date the instrument calibrates.
    pub fn pillar_date(&self) -> (r: Result<Date, QSError>)
        ensures
            instrument_pillar(*self) matches Some(d) ==> r == Ok::<Date, QSError>(d),
            instrument_pillar(*self) is None ==> r == Err::<Date, QSError>(QSError::UnsupportedInstrument),
    {
        match self {
            BuiltInstrument::FixedRateDeposit(x) => match x.leg.last_payment_date() {
                Some(d) => Ok(d),
                None => Err(QSError::UnsupportedInstrument),
            },
            BuiltInstrument::Swap(x) => two_leg_last_payment(&x.fixed_leg, &x.floating_leg),
            BuiltInstrument::BasisSwap(x) => two_leg_last_payment(&x.pay_leg, &x.receive_leg),
            BuiltInstrument::FixFloatCrossCurrencySwap(x) => two_leg_last_payment(&x.domestic_leg, &x.foreign_leg),
            BuiltInstrument::FloatFloatCrossCurrencySwap(x) => two_leg_last_payment(&x.domestic_leg, &x.foreign_leg),
            BuiltInstrument::RateFutures(x) => Ok(x.end_date),
            BuiltInstrument::FxForward(x) => Ok(x.delivery_date),
            _ => Err(QSError::UnsupportedInstrument),
        }
    }
}

} // verus!
