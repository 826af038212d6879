//! Multi-curve bootstrapper over curve specifications: the resolution of every
//! specification into its calibration instruments, keyed by market index.
use vstd::prelude::*;

use crate::bootstrapdiscountpolicy::BootstrapDiscountPolicy;
use crate::calibration::{is_stable_pillar_sort, CalibrationInstrument};
use crate::curveconfiguration::{failure_error, quote_ids, resolve_selected, selection_fits, ResolveFailure, Selected};
use crate::curvespec::{CurveSpec, ResolvedCurveSpec, ResolvedCurveSpecView};
use crate::errors::QSError;
use crate::instruments::BuiltInstrument;
use crate::keyed::{insert_keyed, keys_distinct, keys_held};
use crate::marketdata::ExchangeRateStore;
use crate::marketindex::{IndexKey, MarketIndex};
use crate::quote::{Level, Quote};
use crate::quoteselector::{select_quotes, selected_through, QuoteSelector};
use crate::time::Date;

verus! {

/// What was selected for each configured quote of one curve: `None` for a
/// quote that was not found.
pub type SpecSelection<T> = Vec<Selected<T>>;

/// The views of the selections.
pub open spec fn spec_selection_views<T>(s: Seq<SpecSelection<T>>) -> Seq<Seq<Selected<T>>> {
    s.map_values(|v: SpecSelection<T>| v@)
}

/// The instruments of each curve, resolved from its selection, in the order
/// of the curves; otherwise the first curve that fails, with its failure.
pub open spec fn resolve_found_all<T>(selected: Seq<Seq<Selected<T>>>, level: Level) -> Result<Seq<Seq<CalibrationInstrument<T>>>, (int, ResolveFailure)>
    decreases selected.len(),
{
    if selected.len() == 0 {
        Ok(Seq::empty())
    } else {
        match resolve_found_all(selected.drop_last(), level) {
            Err(e) => Err(e),
            Ok(prev) => match resolve_selected(selected.last(), level) {
                Err(f) => Err((selected.len() - 1, f)),
                Ok(s) => Ok(prev.push(s)),
            },
        }
    }
}

/// Resolving every curve resolves each one on its own: it succeeds exactly
/// when every curve's selection resolves, with each curve's instruments in
/// place; otherwise it reports the first curve whose selection fails, with
/// that failure.
pub proof fn lemma_resolve_found_all_per_curve<T>(sel: Seq<Seq<Selected<T>>>, level: Level)
    ensures
        resolve_found_all(sel, level) is Ok <==> forall|i: int| 0 <= i < sel.len() ==> resolve_selected(#[trigger] sel[i], level) is Ok,
        resolve_found_all(sel, level) matches Ok(all) ==> all.len() == sel.len()
            && forall|i: int| 0 <= i < sel.len() ==> resolve_selected(#[trigger] sel[i], level) == Ok::<Seq<CalibrationInstrument<T>>, ResolveFailure>(all[i]),
        resolve_found_all(sel, level) matches Err((i, f)) ==> 0 <= i < sel.len() && resolve_selected(sel[i], level) == Err::<Seq<CalibrationInstrument<T>>, ResolveFailure>(f)
            && forall|h: int| 0 <= h < i ==> resolve_selected(#[trigger] sel[h], level) is Ok,
    decreases sel.len(),
{
    if sel.len() > 0 {
        let init = sel.drop_last();
        lemma_resolve_found_all_per_curve(init, level);
        assert forall|x: int| 0 <= x < sel.len() - 1 implies #[trigger] sel[x] == init[x] by {}
        assert(sel[sel.len() - 1] == sel.last());
    }
}

/// `r` is the specification `c` resolved at `reference_date` into the
/// instruments `s`, sorted by pillar date.
pub open spec fn spec_resolved_from<T>(r: ResolvedCurveSpecView<T>, c: CurveSpec, s: Seq<CalibrationInstrument<T>>, reference_date: Date) -> bool {
    &&& r.market_index == c.market_index@
    &&& r.currency == c.currency
    &&& r.day_counter == c.day_counter
    &&& r.interpolator == c.interpolator
    &&& r.enable_extrapolation == c.enable_extrapolation
    &&& r.reference_date == reference_date
    &&& is_stable_pillar_sort(r.instruments, s)
}

/// No specification after the one at `i` has its market index.
pub open spec fn last_spec_of_index(specs: Seq<CurveSpec>, i: int) -> bool {
    forall|j: int| i < j < specs.len() ==> (#[trigger] specs[j]).market_index@ != specs[i].market_index@
}

/// The market indices of the specifications.
pub open spec fn spec_indices(specs: Seq<CurveSpec>) -> Set<IndexKey> {
    Set::new(|k: IndexKey| exists|i: int| 0 <= i < specs.len() && (#[trigger] specs[i]).market_index@ == k)
}

/// `m` holds, under the market index of each specification, that
/// specification resolved into its instruments `all[i]`; where specifications
/// share an index, the last of them.
pub open spec fn resolved_spec_map<T>(m: Seq<(MarketIndex, ResolvedCurveSpec<T>)>, specs: Seq<CurveSpec>, all: Seq<Seq<CalibrationInstrument<T>>>, reference_date: Date) -> bool {
    &&& keys_distinct(m)
    &&& keys_held(m) == spec_indices(specs)
    &&& forall|j: int| 0 <= j < m.len() ==> exists|i: int| 0 <= i < specs.len() && (#[trigger] m[j]).0@ == specs[i].market_index@
        && #[trigger] last_spec_of_index(specs, i) && spec_resolved_from(m[j].1@, specs[i], all[i], reference_date)
}

/// Inserting the next specification, resolved, keeps the resolved map of the
/// specifications seen so far.
proof fn lemma_spec_step<T>(before: Seq<(MarketIndex, ResolvedCurveSpec<T>)>, after: Seq<(MarketIndex, ResolvedCurveSpec<T>)>, pre: Seq<CurveSpec>, done: Seq<Seq<CalibrationInstrument<T>>>, c: ResolvedCurveSpec<T>, inst: Seq<CalibrationInstrument<T>>, sv: CurveSpec, reference_date: Date)
    requires
        resolved_spec_map(before, pre, done, reference_date),
        done.len() == pre.len(),
        spec_resolved_from(c@, sv, inst, reference_date),
        keys_distinct(after),
        keys_held(after) == keys_held(before).insert(c@.market_index),
        exists|i: int| 0 <= i < after.len() && after[i].0@ == c@.market_index && after[i].1 == c,
        forall|j: int| 0 <= j < after.len() && after[j].0@ != c@.market_index ==> exists|i: int|
            0 <= i < before.len() && before[i] == #[trigger] after[j],
    ensures
        resolved_spec_map(after, pre.push(sv), done.push(inst), reference_date),
{
    let post = pre.push(sv);
    let nd = done.push(inst);
    let idx = pre.len() as int;
    assert(keys_held(after) =~= spec_indices(post)) by {
        assert forall|k: IndexKey| #[trigger] spec_indices(post).contains(k) == spec_indices(pre).insert(sv.market_index@).contains(k) by {
            if spec_indices(post).contains(k) {
                let i = choose|i: int| 0 <= i < post.len() && (#[trigger] post[i]).market_index@ == k;
                if i < idx {
                    assert(pre[i] == post[i]);
                    assert(spec_indices(pre).contains(k));
                }
            }
            if spec_indices(pre).contains(k) {
                let i = choose|i: int| 0 <= i < pre.len() && (#[trigger] pre[i]).market_index@ == k;
                assert(post[i] == pre[i]);
            }
            if k == sv.market_index@ {
                assert(post[idx] == sv);
            }
        }
        assert(spec_indices(post) =~= spec_indices(pre).insert(sv.market_index@));
    }
    assert forall|j: int| 0 <= j < after.len() implies exists|i: int| 0 <= i < post.len() && (#[trigger] after[j]).0@ == post[i].market_index@
        && #[trigger] last_spec_of_index(post, i) && spec_resolved_from(after[j].1@, post[i], nd[i], reference_date) by {
        if after[j].0@ == sv.market_index@ {
            let w = choose|w: int| 0 <= w < after.len() && after[w].0@ == c@.market_index && after[w].1 == c;
            if w != j {
                if w < j {
                    assert(after[w].0@ != after[j].0@);
                } else {
                    assert(after[j].0@ != after[w].0@);
                }
            }
            assert(post[idx] == sv);
            assert(nd[idx] == inst);
            assert(last_spec_of_index(post, idx));
        } else {
            let a = choose|a: int| 0 <= a < before.len() && before[a] == #[trigger] after[j];
            let i = choose|i: int| 0 <= i < pre.len() && (#[trigger] before[a]).0@ == pre[i].market_index@
                && #[trigger] last_spec_of_index(pre, i) && spec_resolved_from(before[a].1@, pre[i], done[i], reference_date);
            assert(post[i] == pre[i]);
            assert(nd[i] == done[i]);
            assert forall|x: int| i < x < post.len() implies (#[trigger] post[x]).market_index@ != post[i].market_index@ by {
                if x < idx {
                    assert(post[x] == pre[x]);
                } else {
                    assert(post[x] == sv);
                }
            }
            assert(last_spec_of_index(post, i));
        }
    }
}

/// A failure in resolving a prefix of the curves is the failure of all of them.
proof fn lemma_found_all_err<T>(s: Seq<Seq<Selected<T>>>, level: Level, k: int, e: (int, ResolveFailure))
    requires
        0 <= k <= s.len(),
        resolve_found_all(s.take(k), level) == Err::<Seq<Seq<CalibrationInstrument<T>>>, (int, ResolveFailure)>(e),
    ensures
        resolve_found_all(s, level) == Err::<Seq<Seq<CalibrationInstrument<T>>>, (int, ResolveFailure)>(e),
    decreases s.len() - k,
{
    if k < s.len() {
        assert(s.take(k + 1).drop_last() =~= s.take(k));
        lemma_found_all_err(s, level, k + 1, e);
    } else {
        assert(s.take(k) =~= s);
    }
}

/// `r` is the resolution of the specifications `specs` from the selections
/// `sel` of their quotes through `selector` (see [`selected_through`]),
/// at the selector's reference date: the first failure, in their order, or
/// each specification resolved under its market index.
pub open spec fn specs_resolved_from<T, S: QuoteSelector<T>, F: Fn(&Quote<T>, Date, Level, Option<T>) -> Result<BuiltInstrument<T>, QSError>>(
    r: Result<Vec<(MarketIndex, ResolvedCurveSpec<T>)>, QSError>,
    sel: Seq<Seq<Selected<T>>>,
    specs: Seq<CurveSpec>,
    selector: &S,
    level: Level,
    build: &F,
) -> bool {
    &&& sel.len() == specs.len()
    &&& forall|i: int| 0 <= i < sel.len() ==> selected_through(#[trigger] sel[i], quote_ids(specs[i].quotes@), selector, level, None::<T>, build)
    &&& resolve_found_all(sel, level) matches Err((i, f)) ==> (r matches Err(e) && failure_error(e, f, quote_ids(specs[i].quotes@)))
    &&& resolve_found_all(sel, level) matches Ok(all) ==> (r matches Ok(m)
        && resolved_spec_map(m@, specs, all, selector.spec_reference_date()))
}

/// Multi-curve bootstrapper over curve specifications: the specifications to
/// bootstrap, the policy that picks the discount curve of each instrument,
/// and the FX spot rates that cross-currency curves need.
pub struct MultiCurveBootstrapper<T> {
    pub curve_specs: Vec<CurveSpec>,
    pub discount_policy: BootstrapDiscountPolicy,
    pub exchange_rate_store: ExchangeRateStore<T>,
}

impl<T: Copy> MultiCurveBootstrapper<T> {
    /// Creates a bootstrapper from a set of curve specifications, with no FX
    /// spot rates registered.
    pub fn new(curve_specs: Vec<CurveSpec>, discount_policy: BootstrapDiscountPolicy) -> (r: MultiCurveBootstrapper<T>)
        ensures
            r.curve_specs == curve_specs,
            r.discount_policy == discount_policy,
            r.exchange_rate_store.rates@.len() == 0,
    {
        MultiCurveBootstrapper { curve_specs, discount_policy, exchange_rate_store: ExchangeRateStore::new() }
    }

    /// Registers the FX spot rates used by instruments that reference more
    /// than one currency.
    pub fn with_exchange_rate_store(self, store: ExchangeRateStore<T>) -> (r: MultiCurveBootstrapper<T>)
        ensures
            r.curve_specs == self.curve_specs,
            r.discount_policy == self.discount_policy,
            r.exchange_rate_store == store,
    {
        MultiCurveBootstrapper { curve_specs: self.curve_specs, discount_policy: self.discount_policy, exchange_rate_store: store }
    }

    /// Resolves every specification at `reference_date` from what was
    /// selected for its quotes (`selected[i]` for the specification `i`, one
    /// entry per configured quote) and keeps the resolved specifications under
    /// their market indices; the first failure, in the order of the
    /// specifications, otherwise (a quote that was not found is reported by
    /// its identifier).
    pub fn resolve_all(&self, reference_date: Date, level: Level, selected: Vec<SpecSelection<T>>) -> (r: Result<Vec<(MarketIndex, ResolvedCurveSpec<T>)>, QSError>)
        requires
            selected@.len() == self.curve_specs@.len(),
            forall|i: int| 0 <= i < selected@.len() ==> selection_fits(quote_ids(#[trigger] self.curve_specs@[i].quotes@), selected@[i]@),
        ensures
            resolve_found_all(spec_selection_views(selected@), level) matches Err((i, f)) ==> (r matches Err(e)
                && failure_error(e, f, quote_ids(self.curve_specs@[i].quotes@))),
            resolve_found_all(spec_selection_views(selected@), level) matches Ok(all) ==> (r matches Ok(m)
                && resolved_spec_map(m@, self.curve_specs@, all, reference_date)),
    {
        let ghost specs0 = self.curve_specs@;
        let ghost sel0 = spec_selection_views(selected@);
        let mut sel = selected;
        let mut resolved: Vec<(MarketIndex, ResolvedCurveSpec<T>)> = Vec::new();
        let ghost mut done: Seq<Seq<CalibrationInstrument<T>>> = Seq::empty();
        let n = self.curve_specs.len();
        let mut idx: usize = 0;
        proof {
            assert forall|j: int| 0 <= j < n implies selection_fits(quote_ids(#[trigger] specs0[j].quotes@), sel0[j]) by {
                assert(sel0[j] == selected@[j]@);
            }
            assert(sel0.take(0) =~= Seq::<Seq<Selected<T>>>::empty());
            assert(keys_held(resolved@) =~= spec_indices(specs0.take(0)));
        }
        while idx < n
            invariant
                specs0 == self.curve_specs@,
                sel0 == spec_selection_views(selected@),
                n == specs0.len(),
                sel0.len() == n,
                idx <= n,
                sel@.len() == n - idx,
                forall|j: int| 0 <= j < sel@.len() ==> (#[trigger] sel@[j])@ == sel0[idx + j],
                forall|j: int| 0 <= j < n ==> selection_fits(quote_ids(#[trigger] specs0[j].quotes@), sel0[j]),
                resolve_found_all(sel0.take(idx as int), level) == Ok::<Seq<Seq<CalibrationInstrument<T>>>, (int, ResolveFailure)>(done),
                done.len() == idx,
                resolved_spec_map(resolved@, specs0.take(idx as int), done, reference_date),
            decreases n - idx,
        {
            let spec = &self.curve_specs[idx];
            let entries = sel.remove(0);
            let ghost ev = entries@;
            assert(ev == sel0[idx as int]);
            proof {
                assert(sel0.take(idx + 1).drop_last() =~= sel0.take(idx as int));
                assert(sel0.take(idx + 1).last() == ev);
            }
            assert(selection_fits(quote_ids(spec.quotes@), ev));
            let res = match spec.resolve(reference_date, level, entries) {
                Err(e) => {
                    proof {
                        let f = resolve_selected(ev, level)->Err_0;
                        assert(resolve_found_all(sel0.take(idx + 1), level) == Err::<Seq<Seq<CalibrationInstrument<T>>>, (int, ResolveFailure)>((idx as int, f)));
                        lemma_found_all_err(sel0, level, idx + 1, (idx as int, f));
                    }
                    return Err(e);
                },
                Ok(res) => res,
            };
            let ghost inst = resolve_selected(ev, level)->Ok_0;
            let ghost before = resolved@;
            let ghost rv = res;
            let key = spec.market_index().duplicate();
            insert_keyed(&mut resolved, key, res);
            proof {
                lemma_spec_step(before, resolved@, specs0.take(idx as int), done, rv, inst, *spec, reference_date);
                assert(specs0.take(idx + 1) =~= specs0.take(idx as int).push(*spec));
                done = done.push(inst);
            }
            idx = idx + 1;
        }
        proof {
            assert(sel0.take(n as int) =~= sel0);
            assert(specs0.take(n as int) =~= specs0);
        }
        Ok(resolved)
    }

    /// Selects the quotes of every specification through `selector`, building
    /// their instruments with `build` and no FX spot (see [`select_quotes`]),
    /// then resolves the specifications at the selector's reference date (see
    /// [`Self::resolve_all`]): each specification, resolved, under its market
    /// index; otherwise the first failure, in their order.
    pub fn resolve_specs<S: QuoteSelector<T>, F: Fn(&Quote<T>, Date, Level, Option<T>) -> Result<BuiltInstrument<T>, QSError>>(
        &self,
        selector: &S,
        level: Level,
        build: &F,
    ) -> (r: Result<Vec<(MarketIndex, ResolvedCurveSpec<T>)>, QSError>)
        requires
            forall|q: Quote<T>, d: Date| #[trigger] build.requires((&q, d, level, None::<T>)),
        ensures
            exists|sel: Seq<Seq<Selected<T>>>| #[trigger] specs_resolved_from(r, sel, self.curve_specs@, selector, level, build),
            self.curve_specs@.len() == 0 ==> r is Ok,
    {
        let mut selected: Vec<SpecSelection<T>> = Vec::new();
        let n = self.curve_specs.len();
        let mut i: usize = 0;
        while i < n
            invariant
                n == self.curve_specs@.len(),
                i <= n,
                selected@.len() == i,
                forall|q: Quote<T>, d: Date| #[trigger] build.requires((&q, d, level, None::<T>)),
                forall|a: int| 0 <= a < i ==> selected_through((#[trigger] selected@[a])@, quote_ids(self.curve_specs@[a].quotes@),
                    selector, level, None::<T>, build),
            decreases n - i,
        {
            let chosen = select_quotes(&self.curve_specs[i].quotes, selector, level, None, build);
            selected.push(chosen);
            proof {
                assert forall|a: int| 0 <= a < i + 1 implies selected_through((#[trigger] selected@[a])@, quote_ids(self.curve_specs@[a].quotes@),
                    selector, level, None::<T>, build) by {
                    if a < i {
                        assert(selected@[a] == selected@.drop_last()[a]);
                    }
                }
            }
            i = i + 1;
        }
        let ghost sel = spec_selection_views(selected@);
        let reference_date = selector.reference_date();
        proof {
            assert forall|a: int| 0 <= a < sel.len() implies #[trigger] sel[a] == selected@[a]@ by {}
            assert forall|a: int| 0 <= a < selected@.len() implies selection_fits(quote_ids(#[trigger] self.curve_specs@[a].quotes@), selected@[a]@) by {
                assert(selected_through(selected@[a]@, quote_ids(self.curve_specs@[a].quotes@), selector, level, None::<T>, build));
            }
        }
        let r = self.resolve_all(reference_date, level, selected);
        proof {
            assert(specs_resolved_from(r, sel, self.curve_specs@, selector, level, build));
            if n == 0 {
                assert(sel =~= Seq::<Seq<Selected<T>>>::empty());
            }
        }
        r
    }
}

} // verus!
