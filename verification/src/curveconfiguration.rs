//! User-defined bootstrap specification of a curve and the curves it depends on.
use vstd::prelude::*;

use crate::bootstrapdiscountpolicy::{policy_index_for_currency, policy_index_for_leg, BootstrapDiscountPolicy, DiscountPolicyView};
use crate::calibration::{is_stable_pillar_sort, pillar_sorted, sort_by_pillar_date, stable_witness, CalibrationInstrument};
use crate::cashflows::Leg;
use crate::errors::QSError;
use crate::indexset::{distinct_indices, index_keys, insert_index};
use crate::instruments::{instrument_pillar, BuiltInstrument};
use crate::marketindex::{IndexKey, MarketIndex};
use crate::quote::{level_value, Level, Quote};
use crate::quoteselector::{entry_from, select_quotes, selected_ok, selected_through, QuoteSelector};
use crate::time::{Date, DayCounter, Interpolator};

verus! {

/// The value of a [`CurveConfiguration`].
pub struct CurveConfigurationView<T> {
    pub market_index: IndexKey,
    pub day_counter: DayCounter,
    pub interpolator: Interpolator,
    pub enable_extrapolation: bool,
    /// Quote identifiers that define the pillars of this curve.
    pub quotes: Seq<Seq<char>>,
    /// The valuation date captured during resolution.
    pub reference_date: Option<Date>,
    /// The calibration instruments, once resolved.
    pub instruments: Option<Seq<CalibrationInstrument<T>>>,
}

/// What was selected for one configured quote: `None` when no quote was
/// found, else the quote with the instrument built from it, or why it could
/// not be built.
pub type Selected<T> = Option<Result<(Quote<T>, BuiltInstrument<T>), QSError>>;

/// The characters of each quote identifier.
pub open spec fn quote_ids(quotes: Seq<String>) -> Seq<Seq<char>> {
    quotes.map_values(|q: String| q@)
}

/// Why resolving a curve's selections failed: the quote at a position was not
/// found, or an entry gave an error.
pub enum ResolveFailure {
    Missing(int),
    Failed(QSError),
}

/// The calibration instruments obtained from the selections, in the order of
/// the quotes; the first failure otherwise.
pub open spec fn resolve_selected<T>(entries: Seq<Selected<T>>, level: Level) -> Result<Seq<CalibrationInstrument<T>>, ResolveFailure>
    decreases entries.len(),
{
    if entries.len() == 0 {
        Ok(Seq::empty())
    } else {
        match resolve_selected(entries.drop_last(), level) {
            Err(f) => Err(f),
            Ok(prev) => match entries.last() {
                None => Err(ResolveFailure::Missing(entries.len() - 1)),
                Some(Err(e)) => Err(ResolveFailure::Failed(e)),
                Some(Ok((q, b))) => match level_value(q.levels.mid, q.levels.bid, q.levels.ask, level) {
                    None => Err(ResolveFailure::Failed(QSError::MissingQuoteLevel(level))),
                    Some(v) => match instrument_pillar(b) {
                        None => Err(ResolveFailure::Failed(QSError::UnsupportedInstrument)),
                        Some(d) => Ok(prev.push(CalibrationInstrument { quote: q, level, built: b, quote_value: v, pillar_date: d })),
                    },
                },
            },
        }
    }
}

/// `e` is the error reported for the failure `f`, given the configured quote
/// identifiers: a missing quote is reported by its identifier.
pub open spec fn failure_error(e: QSError, f: ResolveFailure, quotes: Seq<Seq<char>>) -> bool {
    match f {
        ResolveFailure::Missing(i) => e matches QSError::QuoteNotFound(id) && id@ == quotes[i],
        ResolveFailure::Failed(x) => e == x,
    }
}

/// One selection per configured quote, in the order of the quotes.
pub open spec fn selection_fits<T>(quotes: Seq<Seq<char>>, entries: Seq<Selected<T>>) -> bool {
    entries.len() == quotes.len()
}

/// `new` is the configuration `old` resolved with the result `r` from the
/// selections `sel` of its quotes through `selector` (see
/// [`selected_through`]): the selector's reference date is recorded; then
/// either the first failure, with the instruments left as they were, or one
/// calibration instrument per quote, in pillar-date order.
pub open spec fn resolved_through<T, S: QuoteSelector<T>, F: Fn(&Quote<T>, Date, Level, Option<T>) -> Result<BuiltInstrument<T>, QSError>>(
    old: CurveConfigurationView<T>,
    new: CurveConfigurationView<T>,
    r: Result<(), QSError>,
    sel: Seq<Selected<T>>,
    selector: &S,
    level: Level,
    fx_spot: Option<T>,
    build: &F,
) -> bool {
    &&& selected_through(sel, old.quotes, selector, level, fx_spot, build)
    &&& new.reference_date == Some(selector.spec_reference_date())
    &&& new.market_index == old.market_index
    &&& new.day_counter == old.day_counter
    &&& new.interpolator == old.interpolator
    &&& new.enable_extrapolation == old.enable_extrapolation
    &&& new.quotes == old.quotes
    &&& resolve_selected(sel, level) matches Err(f) ==> (r matches Err(e) && failure_error(e, f, old.quotes)
        && new.instruments == old.instruments)
    &&& resolve_selected(sel, level) matches Ok(s) ==> (r is Ok && (new.instruments matches Some(v) && is_stable_pillar_sort(v, s)))
}

/// After a successful resolution through a selector, the configuration holds
/// one calibration instrument per configured quote, sorted by pillar date,
/// each the selector's quote under one of the configured identifiers with
/// the instrument `build` made of it at the selector's reference date.
pub proof fn lemma_resolved_one_pillar_per_quote<T, S: QuoteSelector<T>, F: Fn(&Quote<T>, Date, Level, Option<T>) -> Result<BuiltInstrument<T>, QSError>>(
    old: CurveConfigurationView<T>,
    new: CurveConfigurationView<T>,
    r: Result<(), QSError>,
    sel: Seq<Selected<T>>,
    selector: &S,
    level: Level,
    fx_spot: Option<T>,
    build: &F,
)
    requires
        resolved_through(old, new, r, sel, selector, level, fx_spot, build),
        r is Ok,
    ensures
        new.instruments matches Some(v) && v.len() == old.quotes.len() && pillar_sorted(v)
            && forall|k: int| 0 <= k < v.len() ==> exists|j: int| 0 <= j < old.quotes.len()
                && selector.spec_select(old.quotes[j]) == Some(#[trigger] v[k].quote)
                && build.ensures((&v[k].quote, selector.spec_reference_date(), level, fx_spot), Ok::<BuiltInstrument<T>, QSError>(v[k].built)),
{
    let s = resolve_selected(sel, level)->Ok_0;
    lemma_one_instrument_per_entry(sel, level);
    let v = new.instruments->Some_0;
    let p = choose|p: Seq<int>| stable_witness(v, s, p);
    assert forall|k: int| 0 <= k < v.len() implies exists|j: int| 0 <= j < old.quotes.len()
        && selector.spec_select(old.quotes[j]) == Some(#[trigger] v[k].quote)
        && build.ensures((&v[k].quote, selector.spec_reference_date(), level, fx_spot), Ok::<BuiltInstrument<T>, QSError>(v[k].built)) by {
        let j = p[k];
        assert(v[k] == s[j]);
        assert(sel[j] matches Some(Ok(_)));
        assert forall|i: int| 0 <= i < j implies selected_ok(#[trigger] sel[i]) by {
            assert(sel[i] matches Some(Ok(_)));
        }
        assert(entry_from(sel[j], selector.spec_select(old.quotes[j]), selector.spec_reference_date(), level, fx_spot, build));
    }
}

/// Once an entry fails, resolution of every longer prefix fails the same way.
proof fn lemma_resolve_stops<T>(entries: Seq<Selected<T>>, i: int, level: Level)
    requires
        0 <= i < entries.len(),
        resolve_selected(entries.subrange(0, i + 1), level) is Err,
    ensures
        resolve_selected(entries, level) == resolve_selected(entries.subrange(0, i + 1), level),
    decreases entries.len() - i,
{
    if i + 1 < entries.len() {
        let longer = entries.drop_last();
        assert(longer.subrange(0, i + 1) =~= entries.subrange(0, i + 1));
        lemma_resolve_stops(longer, i, level);
    } else {
        assert(entries.subrange(0, i + 1) =~= entries);
    }
}

/// Resolution gives one calibration instrument per entry, in the order of the
/// entries: the `k`-th instrument is the quote and instrument of the `k`-th
/// entry, which is a built quote, valued at `level`.
pub proof fn lemma_one_instrument_per_entry<T>(entries: Seq<Selected<T>>, level: Level)
    requires
        resolve_selected(entries, level) is Ok,
    ensures
        resolve_selected(entries, level)->Ok_0.len() == entries.len(),
        forall|k: int| 0 <= k < entries.len() ==> (#[trigger] entries[k] matches Some(Ok((q, b)))
            && resolve_selected(entries, level)->Ok_0[k].quote == q
            && resolve_selected(entries, level)->Ok_0[k].built == b
            && resolve_selected(entries, level)->Ok_0[k].level == level),
    decreases entries.len(),
{
    if entries.len() > 0 {
        let prev = entries.drop_last();
        lemma_one_instrument_per_entry(prev, level);
        assert forall|k: int| 0 <= k < entries.len() - 1 implies #[trigger] entries[k] == prev[k] by {}
    }
}

/// The entry is a built quote valued at `level` whose instrument has a pillar date.
pub open spec fn usable_entry<T>(e: Selected<T>, level: Level) -> bool {
    e matches Some(Ok((q, b))) && level_value(q.levels.mid, q.levels.bid, q.levels.ask, level) is Some
        && instrument_pillar(b) is Some
}

/// Resolution succeeds exactly when every entry is a built quote valued at
/// the level whose instrument has a pillar date; the `k`-th instrument then
/// carries the `k`-th quote, its instrument, the level, the quote's value at
/// that level and the instrument's pillar date. Otherwise it reports the
/// first entry that is not usable: a missing quote by its position, the
/// builder's error, a missing level, or an instrument without pillar.
pub proof fn lemma_resolution_outcome<T>(entries: Seq<Selected<T>>, level: Level)
    ensures
        resolve_selected(entries, level) is Ok <==> forall|k: int| 0 <= k < entries.len() ==> usable_entry(#[trigger] entries[k], level),
        resolve_selected(entries, level) matches Ok(s) ==> s.len() == entries.len() && forall|k: int| 0 <= k < entries.len()
            ==> ((#[trigger] entries[k]) matches Some(Ok((q, b))) && s[k] == (CalibrationInstrument {
                quote: q,
                level,
                built: b,
                quote_value: level_value(q.levels.mid, q.levels.bid, q.levels.ask, level)->Some_0,
                pillar_date: instrument_pillar(b)->Some_0,
            })),
        resolve_selected(entries, level) matches Err(f) ==> exists|k: int| 0 <= k < entries.len()
            && (forall|i: int| 0 <= i < k ==> usable_entry(#[trigger] entries[i], level))
            && !usable_entry(#[trigger] entries[k], level)
            && match entries[k] {
                None => f == ResolveFailure::Missing(k),
                Some(Err(e)) => f == ResolveFailure::Failed(e),
                Some(Ok((q, b))) => if level_value(q.levels.mid, q.levels.bid, q.levels.ask, level) is None {
                    f == ResolveFailure::Failed(QSError::MissingQuoteLevel(level))
                } else {
                    f == ResolveFailure::Failed(QSError::UnsupportedInstrument)
                },
            },
    decreases entries.len(),
{
    if entries.len() > 0 {
        let prev = entries.drop_last();
        lemma_resolution_outcome(prev, level);
        assert forall|k: int| 0 <= k < entries.len() - 1 implies #[trigger] entries[k] == prev[k] by {}
        let n = entries.len() - 1;
        assert(entries[n] == entries.last());
        if resolve_selected(prev, level) is Err {
            let f = resolve_selected(prev, level)->Err_0;
            let k = choose|k: int| 0 <= k < prev.len()
                && (forall|i: int| 0 <= i < k ==> usable_entry(#[trigger] prev[i], level))
                && !usable_entry(#[trigger] prev[k], level)
                && match prev[k] {
                    None => f == ResolveFailure::Missing(k),
                    Some(Err(e)) => f == ResolveFailure::Failed(e),
                    Some(Ok((q, b))) => if level_value(q.levels.mid, q.levels.bid, q.levels.ask, level) is None {
                        f == ResolveFailure::Failed(QSError::MissingQuoteLevel(level))
                    } else {
                        f == ResolveFailure::Failed(QSError::UnsupportedInstrument)
                    },
                };
            assert(entries[k] == prev[k]);
            assert(!usable_entry(entries[k], level));
        }
    }
}

/// The calibration instruments obtained from `selected`, or the first
/// failure; a quote that was not found is reported by its identifier.
pub fn collect_selected<T: Copy>(quotes: &Vec<String>, selected: Vec<Selected<T>>, level: Level) -> (r: Result<Vec<CalibrationInstrument<T>>, QSError>)
    requires
        selected@.len() == quotes@.len(),
    ensures
        resolve_selected(selected@, level) matches Err(f) ==> (r matches Err(e) && failure_error(e, f, quote_ids(quotes@))),
        resolve_selected(selected@, level) matches Ok(s) ==> (r matches Ok(v) && v@ == s),
{
    let ghost orig = selected@;
    let ghost ids = quote_ids(quotes@);
    let mut rest = selected;
    let mut instruments: Vec<CalibrationInstrument<T>> = Vec::new();
    let n = rest.len();
    let mut i: usize = 0;
    while i < n
        invariant
            orig == selected@,
            ids == quote_ids(quotes@),
            n == orig.len(),
            n == quotes@.len(),
            i <= n,
            rest@ == orig.subrange(i as int, n as int),
            resolve_selected(orig.subrange(0, i as int), level) == Ok::<Seq<CalibrationInstrument<T>>, ResolveFailure>(instruments@),
        decreases n - i,
    {
        let entry = rest.remove(0);
        proof {
            assert(orig.subrange(0, i + 1).drop_last() =~= orig.subrange(0, i as int));
            assert(orig.subrange(0, i + 1).last() == entry);
        }
        match entry {
            None => {
                let id = quotes[i].clone();
                proof {
                    lemma_resolve_stops(orig, i as int, level);
                    assert(ids[i as int] == quotes@[i as int]@);
                }
                return Err(QSError::QuoteNotFound(id));
            },
            Some(Err(e)) => {
                proof { lemma_resolve_stops(orig, i as int, level); }
                return Err(e);
            },
            Some(Ok((quote, built))) => {
                let value = match quote.levels().value(level) {
                    Ok(v) => v,
                    Err(e) => {
                        proof { lemma_resolve_stops(orig, i as int, level); }
                        return Err(e);
                    },
                };
                let pillar = match built.pillar_date() {
                    Ok(d) => d,
                    Err(e) => {
                        proof { lemma_resolve_stops(orig, i as int, level); }
                        return Err(e);
                    },
                };
                instruments.push(CalibrationInstrument::new(quote, level, built, value, pillar));
            },
        }
        proof {
            assert(rest@ =~= orig.subrange(i + 1, n as int));
        }
        i = i + 1;
    }
    proof {
        assert(orig.subrange(0, n as int) =~= orig);
    }
    Ok(instruments)
}

/// The discount curve of a leg, when the policy resolves one.
pub open spec fn leg_discount_keys<T>(p: DiscountPolicyView, leg: Leg<T>) -> Set<IndexKey> {
    match policy_index_for_leg(p, leg) {
        Ok(k) => Set::empty().insert(k),
        Err(_) => Set::empty(),
    }
}

/// The curves one calibration instrument needs: its discount curves under the
/// policy and the indices it projects on.
pub open spec fn instrument_dependencies<T>(p: DiscountPolicyView, b: BuiltInstrument<T>) -> Set<IndexKey> {
    match b {
        BuiltInstrument::FixedRateDeposit(d) => match d.discount_index {
            Some(i) => Set::empty().insert(i@),
            None => Set::empty(),
        },
        BuiltInstrument::Swap(s) => leg_discount_keys(p, s.fixed_leg).insert(s.forward_index@),
        BuiltInstrument::BasisSwap(s) => leg_discount_keys(p, s.pay_leg).insert(s.pay_forward_index@).insert(s.receive_forward_index@),
        BuiltInstrument::FixFloatCrossCurrencySwap(x) => leg_discount_keys(p, x.domestic_leg).union(leg_discount_keys(p, x.foreign_leg)).insert(x.forward_index@),
        BuiltInstrument::FloatFloatCrossCurrencySwap(x) => leg_discount_keys(p, x.domestic_leg).union(leg_discount_keys(p, x.foreign_leg)).insert(x.domestic_forward_index@).insert(x.foreign_forward_index@),
        BuiltInstrument::FxForward(f) => Set::empty().insert(policy_index_for_currency(p, f.base_currency)).insert(policy_index_for_currency(p, f.quote_currency)),
        BuiltInstrument::RateFutures(f) => Set::empty().insert(f.market_index@),
        _ => Set::empty(),
    }
}

/// The curves needed by a sequence of calibration instruments.
pub open spec fn instruments_dependencies<T>(p: DiscountPolicyView, s: Seq<CalibrationInstrument<T>>) -> Set<IndexKey>
    decreases s.len(),
{
    if s.len() == 0 {
        Set::empty()
    } else {
        instruments_dependencies(p, s.drop_last()).union(instrument_dependencies(p, s.last().built))
    }
}

/// The dependencies of a resolved curve: the curve itself and the curves its
/// instruments need.
pub open spec fn curve_dependencies<T>(p: DiscountPolicyView, index: IndexKey, s: Seq<CalibrationInstrument<T>>) -> Set<IndexKey> {
    instruments_dependencies(p, s).insert(index)
}

/// The curves one calibration instrument needs, by its kind: a deposit its
/// own discount index; a swap the discount curve of its fixed leg and its
/// forward index; a basis swap the discount curve of its pay leg and both of
/// its forward indices; a cross-currency swap the discount curves of both legs
/// and its forward indices; an FX forward the discount curves of both of its
/// currencies; a rate futures its index; an option, cap or swaption nothing.
pub proof fn lemma_instrument_needs<T>(p: DiscountPolicyView, b: BuiltInstrument<T>, k: IndexKey)
    ensures
        b matches BuiltInstrument::FixedRateDeposit(x) ==> (instrument_dependencies(p, b).contains(k)
            <==> (x.discount_index matches Some(i) && i@ == k)),
        b matches BuiltInstrument::Swap(x) ==> (instrument_dependencies(p, b).contains(k)
            <==> k == x.forward_index@ || policy_index_for_leg(p, x.fixed_leg) == Ok::<IndexKey, QSError>(k)),
        b matches BuiltInstrument::BasisSwap(x) ==> (instrument_dependencies(p, b).contains(k)
            <==> k == x.pay_forward_index@ || k == x.receive_forward_index@
                || policy_index_for_leg(p, x.pay_leg) == Ok::<IndexKey, QSError>(k)),
        b matches BuiltInstrument::FixFloatCrossCurrencySwap(x) ==> (instrument_dependencies(p, b).contains(k)
            <==> k == x.forward_index@ || policy_index_for_leg(p, x.domestic_leg) == Ok::<IndexKey, QSError>(k)
                || policy_index_for_leg(p, x.foreign_leg) == Ok::<IndexKey, QSError>(k)),
        b matches BuiltInstrument::FloatFloatCrossCurrencySwap(x) ==> (instrument_dependencies(p, b).contains(k)
            <==> k == x.domestic_forward_index@ || k == x.foreign_forward_index@
                || policy_index_for_leg(p, x.domestic_leg) == Ok::<IndexKey, QSError>(k)
                || policy_index_for_leg(p, x.foreign_leg) == Ok::<IndexKey, QSError>(k)),
        b matches BuiltInstrument::FxForward(x) ==> (instrument_dependencies(p, b).contains(k)
            <==> k == policy_index_for_currency(p, x.base_currency) || k == policy_index_for_currency(p, x.quote_currency)),
        b matches BuiltInstrument::RateFutures(x) ==> (instrument_dependencies(p, b).contains(k) <==> k == x.market_index@),
        (b is Call || b is Put || b is CapFloor || b is Swaption) ==> !instrument_dependencies(p, b).contains(k),
{
}

/// The curves a sequence of instruments needs are those some instrument of it needs.
proof fn lemma_instruments_needs<T>(p: DiscountPolicyView, s: Seq<CalibrationInstrument<T>>, k: IndexKey)
    ensures
        instruments_dependencies(p, s).contains(k) <==> exists|a: int| 0 <= a < s.len() && instrument_dependencies(p, (#[trigger] s[a]).built).contains(k),
    decreases s.len(),
{
    if s.len() > 0 {
        let init = s.drop_last();
        lemma_instruments_needs(p, init, k);
        if instruments_dependencies(p, s).contains(k) {
            if instruments_dependencies(p, init).contains(k) {
                let a = choose|a: int| 0 <= a < init.len() && instrument_dependencies(p, (#[trigger] init[a]).built).contains(k);
                assert(s[a] == init[a]);
            } else {
                assert(instrument_dependencies(p, s[s.len() - 1].built).contains(k));
            }
        }
        if exists|a: int| 0 <= a < s.len() && instrument_dependencies(p, (#[trigger] s[a]).built).contains(k) {
            let a = choose|a: int| 0 <= a < s.len() && instrument_dependencies(p, (#[trigger] s[a]).built).contains(k);
            if a < s.len() - 1 {
                assert(s[a] == init[a]);
            }
        }
    }
}

/// A resolved curve depends on itself and on exactly the curves its
/// instruments need: every forward index, discount index and currency curve
/// that one of its instruments names (see [`lemma_instrument_needs`]), and
/// nothing else.
pub proof fn lemma_curve_needs<T>(p: DiscountPolicyView, index: IndexKey, s: Seq<CalibrationInstrument<T>>, k: IndexKey)
    ensures
        curve_dependencies(p, index, s).contains(index),
        curve_dependencies(p, index, s).contains(k) <==> k == index
            || exists|a: int| 0 <= a < s.len() && instrument_dependencies(p, (#[trigger] s[a]).built).contains(k),
        forall|a: int| 0 <= a < s.len() ==> ((#[trigger] s[a]).built matches BuiltInstrument::BasisSwap(x)
            ==> curve_dependencies(p, index, s).contains(x.pay_forward_index@) && curve_dependencies(p, index, s).contains(x.receive_forward_index@)),
        forall|a: int| 0 <= a < s.len() ==> ((#[trigger] s[a]).built matches BuiltInstrument::Swap(x)
            ==> curve_dependencies(p, index, s).contains(x.forward_index@)),
        forall|a: int| 0 <= a < s.len() ==> ((#[trigger] s[a]).built matches BuiltInstrument::RateFutures(x)
            ==> curve_dependencies(p, index, s).contains(x.market_index@)),
        forall|a: int| 0 <= a < s.len() ==> ((#[trigger] s[a]).built matches BuiltInstrument::FxForward(x)
            ==> curve_dependencies(p, index, s).contains(policy_index_for_currency(p, x.base_currency))
                && curve_dependencies(p, index, s).contains(policy_index_for_currency(p, x.quote_currency))),
        forall|a: int| 0 <= a < s.len() ==> ((#[trigger] s[a]).built matches BuiltInstrument::FixedRateDeposit(x)
            ==> (x.discount_index matches Some(i) ==> curve_dependencies(p, index, s).contains(i@))),
{
    lemma_instruments_needs(p, s, k);
    assert forall|a: int, j: IndexKey| 0 <= a < s.len() && instrument_dependencies(p, (#[trigger] s[a]).built).contains(j)
        implies #[trigger] curve_dependencies(p, index, s).contains(j) by {
        lemma_instruments_needs(p, s, j);
    }
}

/// The dependencies reported for a configuration: an error when it is not
/// resolved or has no instrument.
pub open spec fn configuration_dependencies<T>(p: DiscountPolicyView, c: CurveConfigurationView<T>, index: MarketIndex) -> Result<Set<IndexKey>, QSError> {
    match c.instruments {
        None => Err(QSError::CurveNotResolved(index)),
        Some(s) => if s.len() == 0 {
            Err(QSError::NoCalibrationInstruments(index))
        } else {
            Ok(curve_dependencies(p, c.market_index, s))
        },
    }
}

/// Adds the discount curve of `leg` under `policy`, when it resolves one.
fn add_leg_discount<T: Copy>(set: &mut Vec<MarketIndex>, policy: &BootstrapDiscountPolicy, leg: &Leg<T>)
    requires
        distinct_indices(old(set)@),
    ensures
        distinct_indices(final(set)@),
        index_keys(final(set)@) == index_keys(old(set)@).union(leg_discount_keys(policy@, *leg)),
{
    match policy.discount_index(leg) {
        Ok(idx) => {
            insert_index(set, idx);
            assert(index_keys(set@) =~= index_keys(old(set)@).union(leg_discount_keys(policy@, *leg)));
        },
        Err(_) => {
            assert(index_keys(set@) =~= index_keys(old(set)@).union(leg_discount_keys(policy@, *leg)));
        },
    }
}

/// Adds the curves that one calibration instrument needs.
fn add_instrument_dependencies<T: Copy>(set: &mut Vec<MarketIndex>, policy: &BootstrapDiscountPolicy, built: &BuiltInstrument<T>)
    requires
        distinct_indices(old(set)@),
    ensures
        distinct_indices(final(set)@),
        index_keys(final(set)@) == index_keys(old(set)@).union(instrument_dependencies(policy@, *built)),
{
    let ghost k0 = index_keys(set@);
    let ghost p = policy@;
    match built {
        BuiltInstrument::FixedRateDeposit(d) => {
            match &d.discount_index {
                Some(i) => insert_index(set, i.duplicate()),
                None => {},
            }
        },
        BuiltInstrument::Swap(x) => {
            add_leg_discount(set, policy, &x.fixed_leg);
            insert_index(set, x.forward_index.duplicate());
        },
        BuiltInstrument::BasisSwap(x) => {
            add_leg_discount(set, policy, &x.pay_leg);
            insert_index(set, x.pay_forward_index.duplicate());
            insert_index(set, x.receive_forward_index.duplicate());
        },
        BuiltInstrument::FixFloatCrossCurrencySwap(x) => {
            add_leg_discount(set, policy, &x.domestic_leg);
            add_leg_discount(set, policy, &x.foreign_leg);
            insert_index(set, x.forward_index.duplicate());
        },
        BuiltInstrument::FloatFloatCrossCurrencySwap(x) => {
            add_leg_discount(set, policy, &x.domestic_leg);
            add_leg_discount(set, policy, &x.foreign_leg);
            insert_index(set, x.domestic_forward_index.duplicate());
            insert_index(set, x.foreign_forward_index.duplicate());
        },
        BuiltInstrument::FxForward(f) => {
            match policy.discount_index_for_currency(f.base_currency) {
                Ok(i) => insert_index(set, i),
                Err(_) => {},
            }
            match policy.discount_index_for_currency(f.quote_currency) {
                Ok(i) => insert_index(set, i),
                Err(_) => {},
            }
        },
        BuiltInstrument::RateFutures(f) => {
            insert_index(set, f.market_index.duplicate());
        },
        _ => {},
    }
    assert(index_keys(set@) =~= k0.union(instrument_dependencies(p, *built)));
}

/// The day count of a curve whose configuration names none.
pub fn default_day_counter() -> (r: DayCounter)
    ensures
        r == DayCounter::Actual360,
{
    DayCounter::Actual360
}

/// The interpolation of a curve whose configuration names none.
pub fn default_interpolator() -> (r: Interpolator)
    ensures
        r == Interpolator::LogLinear,
{
    Interpolator::LogLinear
}

/// Whether a curve whose configuration does not say extrapolates.
pub fn default_enable_extrapolation() -> (r: bool)
    ensures
        r,
{
    true
}

/// User-defined bootstrap specification for a curve, carrying the quote
/// identifiers that should be used to calibrate it.
#[derive(Debug)]
pub struct CurveConfiguration<T> {
    market_index: MarketIndex,
    day_counter: DayCounter,
    interpolator: Interpolator,
    enable_extrapolation: bool,
    quotes: Vec<String>,
    reference_date: Option<Date>,
    calibration_instruments: Option<Vec<CalibrationInstrument<T>>>,
}

impl<T> View for CurveConfiguration<T> {
    type V = CurveConfigurationView<T>;

    closed spec fn view(&self) -> CurveConfigurationView<T> {
        CurveConfigurationView {
            market_index: self.market_index@,
            day_counter: self.day_counter,
            interpolator: self.interpolator,
            enable_extrapolation: self.enable_extrapolation,
            quotes: quote_ids(self.quotes@),
            reference_date: self.reference_date,
            instruments: match self.calibration_instruments {
                Some(v) => Some(v@),
                None => None,
            },
        }
    }
}

impl<T> CurveConfiguration<T> {
    #[verifier::type_invariant]
    closed spec fn inv(&self) -> bool {
        self.calibration_instruments matches Some(v) ==> pillar_sorted(v@)
    }
}

impl<T: Copy> CurveConfiguration<T> {
    /// Creates an unresolved curve specification.
    pub fn new(market_index: MarketIndex, day_counter: DayCounter, interpolator: Interpolator, enable_extrapolation: bool, quotes: Vec<String>) -> (r: CurveConfiguration<T>)
        ensures
            r@.market_index == market_index@,
            r@.day_counter == day_counter,
            r@.interpolator == interpolator,
            r@.enable_extrapolation == enable_extrapolation,
            r@.quotes == quote_ids(quotes@),
            r@.reference_date is None,
            r@.instruments is None,
    {
        CurveConfiguration {
            market_index,
            day_counter,
            interpolator,
            enable_extrapolation,
            quotes,
            reference_date: None,
            calibration_instruments: None,
        }
    }

    /// Returns the market index for this spec.
    pub fn market_index(&self) -> (r: &MarketIndex)
        ensures
            r@ == self@.market_index,
    {
        &self.market_index
    }

    /// Returns the configured quote identifiers.
    pub fn quotes(&self) -> (r: &Vec<String>)
        ensures
            quote_ids(r@) == self@.quotes,
    {
        &self.quotes
    }

    /// Resolves the configuration at `reference_date` from what was selected and
    /// built for each configured quote (`selected[i]` for the quote `i`):
    /// records the reference date, then either fails with the first failure in
    /// the order of the quotes (a quote that was not found is reported by its
    /// identifier) or stores one calibration instrument per quote, in
    /// pillar-date order.
    pub fn resolve(&mut self, reference_date: Date, level: Level, selected: Vec<Selected<T>>) -> (r: Result<(), QSError>)
        requires
            selection_fits(old(self)@.quotes, selected@),
        ensures
            final(self)@.reference_date == Some(reference_date),
            final(self)@.market_index == old(self)@.market_index,
            final(self)@.day_counter == old(self)@.day_counter,
            final(self)@.interpolator == old(self)@.interpolator,
            final(self)@.enable_extrapolation == old(self)@.enable_extrapolation,
            final(self)@.quotes == old(self)@.quotes,
            resolve_selected(selected@, level) matches Err(f) ==> (r matches Err(e) && failure_error(e, f, old(self)@.quotes)
                && final(self)@.instruments == old(self)@.instruments),
            resolve_selected(selected@, level) matches Ok(s) ==> (r is Ok && (final(self)@.instruments matches Some(v) && is_stable_pillar_sort(v, s))),
    {
        proof { use_type_invariant(&*self); }
        self.reference_date = Some(reference_date);
        match collect_selected(&self.quotes, selected, level) {
            Err(e) => Err(e),
            Ok(instruments) => {
                let sorted = sort_by_pillar_date(instruments);
                self.calibration_instruments = Some(sorted);
                Ok(())
            },
        }
    }

    /// Resolves the configuration through `selector`: selects each configured
    /// quote and builds its instrument with `build`, at the selector's
    /// reference date, with `level` and `fx_spot` (see [`select_quotes`]),
    /// then resolves it from what was selected (see [`Self::resolve`]).
    pub fn resolve_from<S: QuoteSelector<T>, F: Fn(&Quote<T>, Date, Level, Option<T>) -> Result<BuiltInstrument<T>, QSError>>(
        &mut self,
        selector: &S,
        level: Level,
        fx_spot: Option<T>,
        build: &F,
    ) -> (r: Result<(), QSError>)
        requires
            forall|q: Quote<T>, d: Date| #[trigger] build.requires((&q, d, level, fx_spot)),
        ensures
            exists|sel: Seq<Selected<T>>| #[trigger] resolved_through(old(self)@, final(self)@, r, sel, selector, level, fx_spot, build),
    {
        let selected = select_quotes(&self.quotes, selector, level, fx_spot, build);
        let ghost sel = selected@;
        let ghost before = self@;
        proof {
            assert(before.quotes == quote_ids(self.quotes@));
        }
        let d = selector.reference_date();
        let r = self.resolve(d, level, selected);
        proof {
            assert(resolved_through(before, self@, r, sel, selector, level, fx_spot, build));
        }
        r
    }

    /// Returns the calibration instruments in pillar order; an error if the
    /// configuration has not been resolved yet.
    pub fn instruments(&self) -> (r: Result<&Vec<CalibrationInstrument<T>>, QSError>)
        ensures
            self@.instruments matches Some(s) ==> (r matches Ok(v) && v@ == s && pillar_sorted(s)),
            self@.instruments is None ==> (r matches Err(e) && (e matches QSError::CurveNotResolved(i) && i@ == self@.market_index)),
    {
        proof { use_type_invariant(self); }
        match &self.calibration_instruments {
            Some(v) => Ok(v),
            None => Err(QSError::CurveNotResolved(self.market_index.duplicate())),
        }
    }

    /// Returns the valuation date captured during resolution; an error if the
    /// configuration has not been resolved yet.
    pub fn reference_date(&self) -> (r: Result<Date, QSError>)
        ensures
            self@.reference_date matches Some(d) ==> r == Ok::<Date, QSError>(d),
            self@.reference_date is None ==> r == Err::<Date, QSError>(QSError::ConfigurationNotResolved),
    {
        match self.reference_date {
            Some(d) => Ok(d),
            None => Err(QSError::ConfigurationNotResolved),
        }
    }

    /// Returns the day-count convention used for this curve.
    pub fn day_counter(&self) -> (r: DayCounter)
        ensures
            r == self@.day_counter,
    {
        self.day_counter
    }

    /// Returns the interpolation rule used between pillar dates.
    pub fn interpolator(&self) -> (r: Interpolator)
        ensures
            r == self@.interpolator,
    {
        self.interpolator
    }

    /// Returns whether extrapolation is enabled beyond the last pillar.
    pub fn enable_extrapolation(&self) -> (r: bool)
        ensures
            r == self@.enable_extrapolation,
    {
        self.enable_extrapolation
    }

    /// Returns the resolved pillar dates in calibration order; empty when unresolved.
    pub fn pillar_dates(&self) -> (r: Vec<Date>)
        ensures
            self@.instruments matches Some(s) ==> r@ == s.map_values(|c: CalibrationInstrument<T>| c.pillar_date),
            self@.instruments is None ==> r@.len() == 0,
    {
        let mut out: Vec<Date> = Vec::new();
        match &self.calibration_instruments {
            Some(v) => {
                let n = v.len();
                let mut i: usize = 0;
                while i < n
                    invariant
                        n == v@.len(),
                        i <= n,
                        out@ == v@.subrange(0, i as int).map_values(|c: CalibrationInstrument<T>| c.pillar_date),
                    decreases n - i,
                {
                    out.push(v[i].pillar_date());
                    proof {
                        assert(v@.subrange(0, i + 1) =~= v@.subrange(0, i as int).push(v@[i as int]));
                        assert(out@ =~= v@.subrange(0, i + 1).map_values(|c: CalibrationInstrument<T>| c.pillar_date));
                    }
                    i = i + 1;
                }
                assert(v@.subrange(0, n as int) =~= v@);
            },
            None => {},
        }
        out
    }

    /// Returns the resolved pillar labels (quote identifiers) in calibration
    /// order; empty when unresolved.
    pub fn pillar_labels(&self) -> (r: Vec<String>)
        ensures
            self@.instruments matches Some(s) ==> r@.map_values(|l: String| l@) == s.map_values(|c: CalibrationInstrument<T>| c.quote.details.identifier@),
            self@.instruments is None ==> r@.len() == 0,
    {
        let mut out: Vec<String> = Vec::new();
        match &self.calibration_instruments {
            Some(v) => {
                let n = v.len();
                let mut i: usize = 0;
                while i < n
                    invariant
                        n == v@.len(),
                        i <= n,
                        out@.map_values(|l: String| l@) == v@.subrange(0, i as int).map_values(|c: CalibrationInstrument<T>| c.quote.details.identifier@),
                    decreases n - i,
                {
                    let ghost before = out@;
                    let label = v[i].pillar_label();
                    out.push(label);
                    proof {
                        let f = |l: String| l@;
                        assert(v@.subrange(0, i + 1) =~= v@.subrange(0, i as int).push(v@[i as int]));
                        assert(before.push(label).map_values(f) =~= before.map_values(f).push(f(label)));
                        assert(out@.map_values(|l: String| l@) =~= v@.subrange(0, i + 1).map_values(|c: CalibrationInstrument<T>| c.quote.details.identifier@));
                    }
                    i = i + 1;
                }
                assert(v@.subrange(0, n as int) =~= v@);
            },
            None => {},
        }
        out
    }

    /// Returns the resolved market quote values in calibration order; empty when unresolved.
    pub fn quote_values(&self) -> (r: Vec<T>)
        ensures
            self@.instruments matches Some(s) ==> r@ == s.map_values(|c: CalibrationInstrument<T>| c.quote_value),
            self@.instruments is None ==> r@.len() == 0,
    {
        let mut out: Vec<T> = Vec::new();
        match &self.calibration_instruments {
            Some(v) => {
                let n = v.len();
                let mut i: usize = 0;
                while i < n
                    invariant
                        n == v@.len(),
                        i <= n,
                        out@ == v@.subrange(0, i as int).map_values(|c: CalibrationInstrument<T>| c.quote_value),
                    decreases n - i,
                {
                    out.push(v[i].quote_value());
                    proof {
                        assert(v@.subrange(0, i + 1) =~= v@.subrange(0, i as int).push(v@[i as int]));
                        assert(out@ =~= v@.subrange(0, i + 1).map_values(|c: CalibrationInstrument<T>| c.quote_value));
                    }
                    i = i + 1;
                }
                assert(v@.subrange(0, n as int) =~= v@);
            },
            None => {},
        }
        out
    }

    /// Returns the full set of curve dependencies, including the curve itself
    /// and those implied by the discount policy (e.g. CSA and collateral curves).
    /// An error if the curve has not been resolved or has no instrument.
    pub fn dependencies(&self, policy: &BootstrapDiscountPolicy) -> (r: Result<Vec<MarketIndex>, QSError>)
        ensures
            self@.instruments is None ==> (r matches Err(e) && (e matches QSError::CurveNotResolved(i) && i@ == self@.market_index)),
            self@.instruments matches Some(s) ==> (s.len() == 0 ==> (r matches Err(e) && (e matches QSError::NoCalibrationInstruments(i) && i@ == self@.market_index))),
            self@.instruments matches Some(s) ==> (s.len() > 0 ==> (r matches Ok(v) && distinct_indices(v@) && index_keys(v@) == curve_dependencies(policy@, self@.market_index, s))),
    {
        let instruments = match self.instruments() {
            Ok(v) => v,
            Err(e) => return Err(e),
        };
        if instruments.len() == 0 {
            return Err(QSError::NoCalibrationInstruments(self.market_index.duplicate()));
        }
        let mut set: Vec<MarketIndex> = Vec::new();
        set.push(self.market_index.duplicate());
        let ghost s = instruments@;
        let ghost p = policy@;
        proof {
            assert(set@[0]@ == self@.market_index);
            assert forall|k: IndexKey| #[trigger] index_keys(set@).contains(k) == Set::<IndexKey>::empty().insert(self@.market_index).contains(k) by {
                if k == self@.market_index {
                    assert(set@[0]@ == k);
                }
            }
            assert(index_keys(set@) =~= Set::<IndexKey>::empty().insert(self@.market_index));
            assert(s.subrange(0, 0) =~= Seq::<CalibrationInstrument<T>>::empty());
        }
        let n = instruments.len();
        let mut i: usize = 0;
        while i < n
            invariant
                s == instruments@,
                p == policy@,
                n == s.len(),
                i <= n,
                distinct_indices(set@),
                index_keys(set@) == instruments_dependencies(p, s.subrange(0, i as int)).insert(self@.market_index),
            decreases n - i,
        {
            add_instrument_dependencies(&mut set, policy, instruments[i].built());
            proof {
                assert(s.subrange(0, i + 1).drop_last() =~= s.subrange(0, i as int));
                assert(index_keys(set@) =~= instruments_dependencies(p, s.subrange(0, i + 1)).insert(self@.market_index));
            }
            i = i + 1;
        }
        proof {
            assert(s.subrange(0, n as int) =~= s);
        }
        Ok(set)
    }
}

} // verus!
