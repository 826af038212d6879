//! Curve specifications: a curve's conventions and the quotes that define
//! its pillars, and their resolution into calibration instruments.
use vstd::prelude::*;

use crate::calibration::{is_stable_pillar_sort, pillar_sorted, sort_by_pillar_date, CalibrationInstrument};
use crate::currency::Currency;
use crate::curveconfiguration::{collect_selected, failure_error, quote_ids, resolve_selected, selection_fits, Selected};
use crate::errors::QSError;
use crate::marketindex::{IndexKey, MarketIndex};
use crate::quote::Level;
use crate::time::{Date, DayCounter, Interpolator};

verus! {

/// A resolved calibration instrument.
pub type ResolvedInstrument<T> = CalibrationInstrument<T>;

/// The currency of a curve whose specification names none.
pub fn default_currency() -> (r: Currency)
    ensures
        r == Currency::USD,
{
    Currency::USD
}

/// User-defined bootstrap specification for a curve, carrying the quote
/// identifiers that should be used to calibrate it.
#[derive(Debug)]
pub struct CurveSpec {
    pub market_index: MarketIndex,
    pub currency: Currency,
    pub day_counter: DayCounter,
    pub interpolator: Interpolator,
    pub enable_extrapolation: bool,
    pub quotes: Vec<String>,
}

impl CurveSpec {
    /// Creates a curve specification.
    pub fn new(market_index: MarketIndex, currency: Currency, day_counter: DayCounter, interpolator: Interpolator, enable_extrapolation: bool, quotes: Vec<String>) -> (r: CurveSpec)
        ensures
            r.market_index@ == market_index@,
            r.currency == currency,
            r.day_counter == day_counter,
            r.interpolator == interpolator,
            r.enable_extrapolation == enable_extrapolation,
            r.quotes@ == quotes@,
    {
        CurveSpec { market_index, currency, day_counter, interpolator, enable_extrapolation, quotes }
    }

    /// Returns the market index for this spec.
    pub fn market_index(&self) -> (r: &MarketIndex)
        ensures
            r@ == self.market_index@,
    {
        &self.market_index
    }

    /// Returns the currency of this spec.
    pub fn currency(&self) -> (r: Currency)
        ensures
            r == self.currency,
    {
        self.currency
    }

    /// Resolves the spec at `reference_date` from what was selected for each
    /// configured quote (`selected[i]` for the quote `i`): the first failure in
    /// the order of the quotes is returned, a quote that was not found being
    /// reported by its identifier; otherwise one instrument per quote, in
    /// pillar-date order.
    pub fn resolve<T: Copy>(&self, reference_date: Date, level: Level, selected: Vec<Selected<T>>) -> (r: Result<ResolvedCurveSpec<T>, QSError>)
        requires
            selection_fits(quote_ids(self.quotes@), selected@),
        ensures
            resolve_selected(selected@, level) matches Err(f) ==> (r matches Err(e) && failure_error(e, f, quote_ids(self.quotes@))),
            resolve_selected(selected@, level) matches Ok(s) ==> (r matches Ok(spec) && {
                &&& spec@.market_index == self.market_index@
                &&& spec@.currency == self.currency
                &&& spec@.day_counter == self.day_counter
                &&& spec@.interpolator == self.interpolator
                &&& spec@.enable_extrapolation == self.enable_extrapolation
                &&& spec@.reference_date == reference_date
                &&& is_stable_pillar_sort(spec@.instruments, s)
            }),
    {
        match collect_selected(&self.quotes, selected, level) {
            Err(e) => Err(e),
            Ok(instruments) => {
                let sorted = sort_by_pillar_date(instruments);
                Ok(ResolvedCurveSpec {
                    market_index: self.market_index.duplicate(),
                    currency: self.currency,
                    day_counter: self.day_counter,
                    interpolator: self.interpolator,
                    enable_extrapolation: self.enable_extrapolation,
                    reference_date,
                    instruments: sorted,
                })
            },
        }
    }
}

/// The value of a [`ResolvedCurveSpec`].
pub struct ResolvedCurveSpecView<T> {
    pub market_index: IndexKey,
    pub currency: Currency,
    pub day_counter: DayCounter,
    pub interpolator: Interpolator,
    pub enable_extrapolation: bool,
    pub reference_date: Date,
    pub instruments: Seq<CalibrationInstrument<T>>,
}

/// Resolved calibration payload for one curve, its instruments sorted by pillar date.
pub struct ResolvedCurveSpec<T> {
    market_index: MarketIndex,
    currency: Currency,
    day_counter: DayCounter,
    interpolator: Interpolator,
    enable_extrapolation: bool,
    reference_date: Date,
    instruments: Vec<CalibrationInstrument<T>>,
}

impl<T> View for ResolvedCurveSpec<T> {
    type V = ResolvedCurveSpecView<T>;

    closed spec fn view(&self) -> ResolvedCurveSpecView<T> {
        ResolvedCurveSpecView {
            market_index: self.market_index@,
            currency: self.currency,
            day_counter: self.day_counter,
            interpolator: self.interpolator,
            enable_extrapolation: self.enable_extrapolation,
            reference_date: self.reference_date,
            instruments: self.instruments@,
        }
    }
}

impl<T> ResolvedCurveSpec<T> {
    #[verifier::type_invariant]
    closed spec fn inv(&self) -> bool {
        pillar_sorted(self.instruments@)
    }
}

impl<T: Copy> ResolvedCurveSpec<T> {
    /// Returns the reference (valuation) date for this curve.
    pub fn reference_date(&self) -> (r: Date)
        ensures
            r == self@.reference_date,
    {
        self.reference_date
    }

    /// Returns the target market index.
    pub fn market_index(&self) -> (r: &MarketIndex)
        ensures
            r@ == self@.market_index,
    {
        &self.market_index
    }

    /// Returns the target curve currency.
    pub fn currency(&self) -> (r: Currency)
        ensures
            r == self@.currency,
    {
        self.currency
    }

    /// Returns the curve day counter.
    pub fn day_counter(&self) -> (r: DayCounter)
        ensures
            r == self@.day_counter,
    {
        self.day_counter
    }

    /// Returns the interpolator.
    pub fn interpolator(&self) -> (r: Interpolator)
        ensures
            r == self@.interpolator,
    {
        self.interpolator
    }

    /// Returns the extrapolation flag.
    pub fn enable_extrapolation(&self) -> (r: bool)
        ensures
            r == self@.enable_extrapolation,
    {
        self.enable_extrapolation
    }

    /// Returns the resolved instruments, in pillar-date order.
    pub fn instruments(&self) -> (r: &Vec<CalibrationInstrument<T>>)
        ensures
            r@ == self@.instruments,
            pillar_sorted(r@),
    {
        proof { use_type_invariant(self); }
        &self.instruments
    }

    /// Returns the pillar dates, one per instrument.
    pub fn pillar_dates(&self) -> (r: Vec<Date>)
        ensures
            r@ == self@.instruments.map_values(|c: CalibrationInstrument<T>| c.pillar_date),
    {
        let v = &self.instruments;
        let mut out: Vec<Date> = Vec::new();
        let n = v.len();
        let mut i: usize = 0;
        while i < n
            invariant
                n == v@.len(),
                i <= n,
                out@ == v@.subrange(0, i as int).map_values(|c: CalibrationInstrument<T>| c.pillar_date),
            decreases n - i,
        {
            out.push(v[i].pillar_date());
            proof {
                assert(v@.subrange(0, i + 1) =~= v@.subrange(0, i as int).push(v@[i as int]));
                assert(out@ =~= v@.subrange(0, i + 1).map_values(|c: CalibrationInstrument<T>| c.pillar_date));
            }
            i = i + 1;
        }
        assert(v@.subrange(0, n as int) =~= v@);
        out
    }

    /// Returns the pillar labels (quote identifiers), one per instrument.
    pub fn pillar_labels(&self) -> (r: Vec<String>)
        ensures
            r@.map_values(|l: String| l@) == self@.instruments.map_values(|c: CalibrationInstrument<T>| c.quote.details.identifier@),
    {
        let v = &self.instruments;
        let mut out: Vec<String> = Vec::new();
        let n = v.len();
        let mut i: usize = 0;
        while i < n
            invariant
                n == v@.len(),
                i <= n,
                out@.map_values(|l: String| l@) == v@.subrange(0, i as int).map_values(|c: CalibrationInstrument<T>| c.quote.details.identifier@),
            decreases n - i,
        {
            let ghost before = out@;
            let label = v[i].pillar_label();
            out.push(label);
            proof {
                let f = |l: String| l@;
                assert(v@.subrange(0, i + 1) =~= v@.subrange(0, i as int).push(v@[i as int]));
                assert(before.push(label).map_values(f) =~= before.map_values(f).push(f(label)));
                assert(out@.map_values(|l: String| l@) =~= v@.subrange(0, i + 1).map_values(|c: CalibrationInstrument<T>| c.quote.details.identifier@));
            }
            i = i + 1;
        }
        assert(v@.subrange(0, n as int) =~= v@);
        out
    }

    /// Returns the market quote values, one per instrument.
    pub fn quote_values(&self) -> (r: Vec<T>)
        ensures
            r@ == self@.instruments.map_values(|c: CalibrationInstrument<T>| c.quote_value),
    {
        let v = &self.instruments;
        let mut out: Vec<T> = Vec::new();
        let n = v.len();
        let mut i: usize = 0;
        while i < n
            invariant
                n == v@.len(),
                i <= n,
                out@ == v@.subrange(0, i as int).map_values(|c: CalibrationInstrument<T>| c.quote_value),
            decreases n - i,
        {
            out.push(v[i].quote_value());
            proof {
                assert(v@.subrange(0, i + 1) =~= v@.subrange(0, i as int).push(v@[i as int]));
                assert(out@ =~= v@.subrange(0, i + 1).map_values(|c: CalibrationInstrument<T>| c.quote_value));
            }
            i = i + 1;
        }
        assert(v@.subrange(0, n as int) =~= v@);
        out
    }
}

} // verus!
