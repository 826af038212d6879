//! Dependency-aware multi-curve bootstrapper over curve configurations: the
//! resolution of every configuration and the order in which the curves are
//! bootstrapped.
use vstd::prelude::*;

use crate::bootstrapdiscountpolicy::BootstrapDiscountPolicy;
use crate::bootstraputils::{all_configured, all_resolved, dependency_order, is_dependency_order};
use crate::calibration::{is_stable_pillar_sort, CalibrationInstrument};
use crate::curveconfiguration::{failure_error, quote_ids, resolve_selected, selection_fits, CurveConfiguration, CurveConfigurationView, ResolveFailure, Selected};
use crate::errors::QSError;
use crate::instruments::BuiltInstrument;
use crate::keyed::{insert_keyed, keys_distinct, keys_held};
use crate::marketdata::{stored_rate, ExchangeRateStore};
use crate::marketindex::{IndexKey, MarketIndex};
use crate::quote::{Level, Quote};
use crate::quoteselector::{select_quotes, selected_through, QuoteSelector};
use crate::time::Date;

verus! {

/// What was selected and built for each configured quote of one curve.
pub type Selection<T> = Vec<Selected<T>>;

/// The views of the selections.
pub open spec fn selection_views<T>(s: Seq<Selection<T>>) -> Seq<Seq<Selected<T>>> {
    s.map_values(|v: Selection<T>| v@)
}

/// The views of the configurations.
pub open spec fn configuration_views<T>(s: Seq<CurveConfiguration<T>>) -> Seq<CurveConfigurationView<T>> {
    s.map_values(|c: CurveConfiguration<T>| c@)
}

/// The calibration instruments of each curve, resolved from its selection, in
/// the order of the curves; otherwise the first curve that fails, with its failure.
pub open spec fn resolve_all<T>(selected: Seq<Seq<Selected<T>>>, level: Level) -> Result<Seq<Seq<CalibrationInstrument<T>>>, (int, ResolveFailure)>
    decreases selected.len(),
{
    if selected.len() == 0 {
        Ok(Seq::empty())
    } else {
        match resolve_all(selected.drop_last(), level) {
            Err(e) => Err(e),
            Ok(prev) => match resolve_selected(selected.last(), level) {
                Err(f) => Err((selected.len() - 1, f)),
                Ok(s) => Ok(prev.push(s)),
            },
        }
    }
}

/// Resolving every curve resolves each one on its own: it succeeds exactly
/// when every curve's selection resolves, with each curve's instruments in
/// place; otherwise it reports the first curve whose selection fails, with
/// that failure.
pub proof fn lemma_resolve_all_per_curve<T>(sel: Seq<Seq<Selected<T>>>, level: Level)
    ensures
        resolve_all(sel, level) is Ok <==> forall|i: int| 0 <= i < sel.len() ==> resolve_selected(#[trigger] sel[i], level) is Ok,
        resolve_all(sel, level) matches Ok(all) ==> all.len() == sel.len()
            && forall|i: int| 0 <= i < sel.len() ==> resolve_selected(#[trigger] sel[i], level) == Ok::<Seq<CalibrationInstrument<T>>, ResolveFailure>(all[i]),
        resolve_all(sel, level) matches Err((i, f)) ==> 0 <= i < sel.len() && resolve_selected(sel[i], level) == Err::<Seq<CalibrationInstrument<T>>, ResolveFailure>(f)
            && forall|h: int| 0 <= h < i ==> resolve_selected(#[trigger] sel[h], level) is Ok,
    decreases sel.len(),
{
    if sel.len() > 0 {
        let init = sel.drop_last();
        lemma_resolve_all_per_curve(init, level);
        assert forall|x: int| 0 <= x < sel.len() - 1 implies #[trigger] sel[x] == init[x] by {}
        assert(sel[sel.len() - 1] == sel.last());
    }
}

/// `r` is the configuration `c` resolved at `reference_date` into the
/// instruments `s`, sorted by pillar date.
pub open spec fn resolved_from<T>(r: CurveConfigurationView<T>, c: CurveConfigurationView<T>, s: Seq<CalibrationInstrument<T>>, reference_date: Date) -> bool {
    &&& r.market_index == c.market_index
    &&& r.day_counter == c.day_counter
    &&& r.interpolator == c.interpolator
    &&& r.enable_extrapolation == c.enable_extrapolation
    &&& r.quotes == c.quotes
    &&& r.reference_date == Some(reference_date)
    &&& r.instruments matches Some(v) && is_stable_pillar_sort(v, s)
}

/// No configuration after the one at `i` has its market index.
pub open spec fn last_of_index<T>(specs: Seq<CurveConfigurationView<T>>, i: int) -> bool {
    forall|j: int| i < j < specs.len() ==> (#[trigger] specs[j]).market_index != specs[i].market_index
}

/// The market indices of the configurations.
pub open spec fn configured_indices<T>(specs: Seq<CurveConfigurationView<T>>) -> Set<IndexKey> {
    Set::new(|k: IndexKey| exists|i: int| 0 <= i < specs.len() && (#[trigger] specs[i]).market_index == k)
}

/// `m` holds, under the market index of each configuration, that configuration
/// resolved into its instruments `all[i]`; where configurations share an
/// index, the last of them.
pub open spec fn resolved_map<T>(m: Seq<(MarketIndex, CurveConfiguration<T>)>, specs: Seq<CurveConfigurationView<T>>, all: Seq<Seq<CalibrationInstrument<T>>>, reference_date: Date) -> bool {
    &&& keys_distinct(m)
    &&& keys_held(m) == configured_indices(specs)
    &&& forall|j: int| 0 <= j < m.len() ==> exists|i: int| 0 <= i < specs.len() && (#[trigger] m[j]).0@ == specs[i].market_index
        && #[trigger] last_of_index(specs, i) && resolved_from(m[j].1@, specs[i], all[i], reference_date)
}

/// The resolved curves of a bootstrapper and the order in which to bootstrap them.
pub struct BootstrapPlan<T> {
    /// Each curve, resolved, under its market index.
    pub curves: Vec<(MarketIndex, CurveConfiguration<T>)>,
    /// Every curve once, each after the curves it depends on.
    pub order: Vec<MarketIndex>,
    pub discount_policy: BootstrapDiscountPolicy,
    pub exchange_rate_store: ExchangeRateStore<T>,
}

/// Inserting the next configuration, resolved, keeps the resolved map of the
/// configurations seen so far.
proof fn lemma_resolved_step<T>(before: Seq<(MarketIndex, CurveConfiguration<T>)>, after: Seq<(MarketIndex, CurveConfiguration<T>)>, pre: Seq<CurveConfigurationView<T>>, done: Seq<Seq<CalibrationInstrument<T>>>, c: CurveConfiguration<T>, inst: Seq<CalibrationInstrument<T>>, sv: CurveConfigurationView<T>, reference_date: Date)
    requires
        resolved_map(before, pre, done, reference_date),
        done.len() == pre.len(),
        resolved_from(c@, sv, inst, reference_date),
        keys_distinct(after),
        keys_held(after) == keys_held(before).insert(c@.market_index),
        exists|i: int| 0 <= i < after.len() && after[i].0@ == c@.market_index && after[i].1 == c,
        forall|j: int| 0 <= j < after.len() && after[j].0@ != c@.market_index ==> exists|i: int|
            0 <= i < before.len() && before[i] == #[trigger] after[j],
    ensures
        resolved_map(after, pre.push(sv), done.push(inst), reference_date),
{
    let post = pre.push(sv);
    let nd = done.push(inst);
    let idx = pre.len() as int;
    assert(keys_held(after) =~= configured_indices(post)) by {
        assert forall|k: IndexKey| #[trigger] configured_indices(post).contains(k) == configured_indices(pre).insert(sv.market_index).contains(k) by {
            if configured_indices(post).contains(k) {
                let i = choose|i: int| 0 <= i < post.len() && (#[trigger] post[i]).market_index == k;
                if i < idx {
                    assert(pre[i] == post[i]);
                    assert(configured_indices(pre).contains(k));
                }
            }
            if configured_indices(pre).contains(k) {
                let i = choose|i: int| 0 <= i < pre.len() && (#[trigger] pre[i]).market_index == k;
                assert(post[i] == pre[i]);
            }
            if k == sv.market_index {
                assert(post[idx] == sv);
            }
        }
        assert(configured_indices(post) =~= configured_indices(pre).insert(sv.market_index));
    }
    assert forall|j: int| 0 <= j < after.len() implies exists|i: int| 0 <= i < post.len() && (#[trigger] after[j]).0@ == post[i].market_index
        && #[trigger] last_of_index(post, i) && resolved_from(after[j].1@, post[i], nd[i], reference_date) by {
        if after[j].0@ == sv.market_index {
            let w = choose|w: int| 0 <= w < after.len() && after[w].0@ == c@.market_index && after[w].1 == c;
            if w != j {
                if w < j {
                    assert(after[w].0@ != after[j].0@);
                } else {
                    assert(after[j].0@ != after[w].0@);
                }
            }
            assert(post[idx] == sv);
            assert(nd[idx] == inst);
            assert(last_of_index(post, idx));
        } else {
            let a = choose|a: int| 0 <= a < before.len() && before[a] == #[trigger] after[j];
            let i = choose|i: int| 0 <= i < pre.len() && (#[trigger] before[a]).0@ == pre[i].market_index
                && #[trigger] last_of_index(pre, i) && resolved_from(before[a].1@, pre[i], done[i], reference_date);
            assert(post[i] == pre[i]);
            assert(nd[i] == done[i]);
            assert forall|x: int| i < x < post.len() implies (#[trigger] post[x]).market_index != post[i].market_index by {
                if x < idx {
                    assert(post[x] == pre[x]);
                } else {
                    assert(post[x] == sv);
                }
            }
            assert(last_of_index(post, i));
        }
    }
}

/// A failure in resolving a prefix of the curves is the failure of all of them.
proof fn lemma_resolve_all_err<T>(s: Seq<Seq<Selected<T>>>, level: Level, k: int, e: (int, ResolveFailure))
    requires
        0 <= k <= s.len(),
        resolve_all(s.take(k), level) == Err::<Seq<Seq<CalibrationInstrument<T>>>, (int, ResolveFailure)>(e),
    ensures
        resolve_all(s, level) == Err::<Seq<Seq<CalibrationInstrument<T>>>, (int, ResolveFailure)>(e),
    decreases s.len() - k,
{
    if k < s.len() {
        assert(s.take(k + 1).drop_last() =~= s.take(k));
        lemma_resolve_all_err(s, level, k + 1, e);
    } else {
        assert(s.take(k) =~= s);
    }
}

/// `sel` is what selection records for every configuration of `b` through
/// `selector`, in order: for each, its quotes built with the FX spot of its
/// curve (see [`selected_through`]).
pub open spec fn selected_all<T: Copy, S: QuoteSelector<T>, F: Fn(&Quote<T>, Date, Level, Option<T>) -> Result<BuiltInstrument<T>, QSError>>(
    sel: Seq<Selection<T>>,
    b: &MultiCurveBootstrapper<T>,
    selector: &S,
    level: Level,
    build: &F,
) -> bool {
    &&& sel.len() == b.curve_specs@.len()
    &&& forall|i: int| 0 <= i < sel.len() ==> selected_through((#[trigger] sel[i])@, b.curve_specs@[i]@.quotes, selector, level,
        b.fx_spot_of(b.curve_specs@[i]@.market_index), build)
}

/// `r` is the plan of `b` made from the selections `sel` of its quotes
/// through `selector`, resolved at the selector's reference date: the first
/// failure to resolve a configuration, or the resolved curves in a dependency
/// order (see [`MultiCurveBootstrapper::resolve_and_order`]).
pub open spec fn planned_from<T: Copy, S: QuoteSelector<T>, F: Fn(&Quote<T>, Date, Level, Option<T>) -> Result<BuiltInstrument<T>, QSError>>(
    r: Result<BootstrapPlan<T>, QSError>,
    sel: Seq<Seq<Selected<T>>>,
    b: MultiCurveBootstrapper<T>,
    selector: &S,
    level: Level,
    build: &F,
) -> bool {
    let specs = configuration_views(b.curve_specs@);
    let d = selector.spec_reference_date();
    &&& sel.len() == b.curve_specs@.len()
    &&& forall|i: int| 0 <= i < sel.len() ==> selected_through(#[trigger] sel[i], specs[i].quotes, selector, level,
        b.fx_spot_of(specs[i].market_index), build)
    &&& resolve_all(sel, level) matches Err((i, f)) ==> (r matches Err(e) && failure_error(e, f, specs[i].quotes))
    &&& r matches Ok(p) ==> {
        &&& resolve_all(sel, level) matches Ok(all)
        &&& resolved_map(p.curves@, specs, all, d)
        &&& all_resolved(p.curves@)
        &&& all_configured(b.discount_policy@, p.curves@)
        &&& is_dependency_order(b.discount_policy@, p.curves@, p.order@.map_values(|i: MarketIndex| i@))
        &&& p.discount_policy == b.discount_policy
        &&& p.exchange_rate_store == b.exchange_rate_store
    }
    &&& resolve_all(sel, level) matches Ok(all) ==> (r is Err ==> exists|m: Seq<(MarketIndex, CurveConfiguration<T>)>|
        #[trigger] resolved_map(m, specs, all, d)
        && (!all_resolved(m) || !all_configured(b.discount_policy@, m)
            || forall|o: Seq<IndexKey>| !is_dependency_order(b.discount_policy@, m, o)))
}

/// Dependency-aware, lazy multi-curve bootstrapper: the curve configurations
/// to bootstrap, the policy that picks the discount curve of each instrument,
/// and the FX spot rates that cross-currency curves need.
pub struct MultiCurveBootstrapper<T> {
    pub curve_specs: Vec<CurveConfiguration<T>>,
    pub discount_policy: BootstrapDiscountPolicy,
    pub exchange_rate_store: ExchangeRateStore<T>,
}

impl<T: Copy> MultiCurveBootstrapper<T> {
    /// Creates a bootstrapper from a set of curve configurations, with no FX
    /// spot rates registered.
    pub fn new(curve_specs: Vec<CurveConfiguration<T>>, discount_policy: BootstrapDiscountPolicy) -> (r: MultiCurveBootstrapper<T>)
        ensures
            r.curve_specs == curve_specs,
            r.discount_policy == discount_policy,
            r.exchange_rate_store.rates@.len() == 0,
    {
        MultiCurveBootstrapper { curve_specs, discount_policy, exchange_rate_store: ExchangeRateStore::new() }
    }

    /// Registers the FX spot rates used by instruments that reference more
    /// than one currency.
    pub fn with_exchange_rate_store(self, store: ExchangeRateStore<T>) -> (r: MultiCurveBootstrapper<T>)
        ensures
            r.curve_specs == self.curve_specs,
            r.discount_policy == self.discount_policy,
            r.exchange_rate_store == store,
    {
        MultiCurveBootstrapper { curve_specs: self.curve_specs, discount_policy: self.discount_policy, exchange_rate_store: store }
    }

    /// The FX spot handed to the resolution of the curve `index`: for a
    /// collateral curve `Collateral(ccy, coll)`, the stored rate of
    /// `coll`/`ccy` when there is one; none for any other curve.
    pub fn fx_spot_for(&self, index: &MarketIndex) -> (r: Option<T>)
        ensures
            *index matches MarketIndex::Collateral(ccy, coll) ==> r == stored_rate(self.exchange_rate_store.rates@, coll, ccy),
            !(*index is Collateral) ==> r is None,
    {
        match index {
            MarketIndex::Collateral(ccy, coll) => match self.exchange_rate_store.get_exchange_rate(*coll, *ccy) {
                Ok(v) => Some(v),
                Err(_) => None,
            },
            _ => None,
        }
    }

    /// Resolves every configuration at `reference_date` from what was
    /// selected and built for its quotes (`selected[i]` for the configuration
    /// `i`, one entry per configured quote), keeps the resolved configurations under their market indices, and
    /// orders them so that every curve comes after the curves it depends on.
    ///
    /// Errors: the first failure to resolve a configuration, in their order (a
    /// quote that was not found is reported by its identifier); then the
    /// failures of [`dependency_order`] on the resolved curves.
    #[verifier::loop_isolation(false)]
    pub fn resolve_and_order(self, reference_date: Date, level: Level, selected: Vec<Selection<T>>) -> (r: Result<BootstrapPlan<T>, QSError>)
        requires
            selected@.len() == self.curve_specs@.len(),
            forall|i: int| 0 <= i < selected@.len() ==> selection_fits(#[trigger] self.curve_specs@[i]@.quotes, selected@[i]@),
        ensures
            resolve_all(selection_views(selected@), level) matches Err((i, f)) ==> (r matches Err(e)
                && failure_error(e, f, configuration_views(self.curve_specs@)[i].quotes)),
            r matches Ok(p) ==> {
                &&& resolve_all(selection_views(selected@), level) matches Ok(all)
                &&& resolved_map(p.curves@, configuration_views(self.curve_specs@), all, reference_date)
                &&& all_resolved(p.curves@)
                &&& all_configured(self.discount_policy@, p.curves@)
                &&& is_dependency_order(self.discount_policy@, p.curves@, p.order@.map_values(|i: MarketIndex| i@))
                &&& p.discount_policy == self.discount_policy
                &&& p.exchange_rate_store == self.exchange_rate_store
            },
            resolve_all(selection_views(selected@), level) matches Ok(all) ==> (r is Err ==> exists|m: Seq<(MarketIndex, CurveConfiguration<T>)>|
                #[trigger] resolved_map(m, configuration_views(self.curve_specs@), all, reference_date)
                && (!all_resolved(m) || !all_configured(self.discount_policy@, m)
                    || forall|o: Seq<IndexKey>| !is_dependency_order(self.discount_policy@, m, o))),
            self.curve_specs@.len() == 0 ==> r is Ok,
    {
        let ghost specs0 = configuration_views(self.curve_specs@);
        let ghost sel0 = selection_views(selected@);
        let MultiCurveBootstrapper { curve_specs, discount_policy, exchange_rate_store } = self;
        let mut specs = curve_specs;
        let mut sel = selected;
        let mut resolved: Vec<(MarketIndex, CurveConfiguration<T>)> = Vec::new();
        let ghost mut done: Seq<Seq<CalibrationInstrument<T>>> = Seq::empty();
        let n = specs.len();
        let mut idx: usize = 0;
        proof {
            assert(sel0.take(0) =~= Seq::<Seq<Selected<T>>>::empty());
            assert forall|j: int| 0 <= j < n implies selection_fits(specs0[j].quotes, #[trigger] sel0[j]) by {
                assert(specs0[j] == curve_specs@[j]@);
            }
            assert(keys_held(resolved@) =~= configured_indices(specs0.take(0)));
        }
        while idx < n
            invariant
                n == specs0.len(),
                sel0.len() == n,
                idx <= n,
                specs@.len() == n - idx,
                sel@.len() == n - idx,
                forall|j: int| 0 <= j < n ==> selection_fits(specs0[j].quotes, #[trigger] sel0[j]),
                forall|j: int| 0 <= j < specs@.len() ==> (#[trigger] specs@[j])@ == specs0[idx + j],
                forall|j: int| 0 <= j < sel@.len() ==> (#[trigger] sel@[j])@ == sel0[idx + j],
                resolve_all(sel0.take(idx as int), level) == Ok::<Seq<Seq<CalibrationInstrument<T>>>, (int, ResolveFailure)>(done),
                done.len() == idx,
                resolved_map(resolved@, specs0.take(idx as int), done, reference_date),
                n == 0 ==> resolved@.len() == 0,
            decreases n - idx,
        {
            let mut spec = specs.remove(0);
            let entries = sel.remove(0);
            let ghost ev = entries@;
            let ghost sv = spec@;
            assert(ev == sel0[idx as int] && sv == specs0[idx as int]);
            proof {
                assert(sel0.take(idx + 1).drop_last() =~= sel0.take(idx as int));
                assert(sel0.take(idx + 1).last() == ev);
            }
            assert(selection_fits(sv.quotes, ev));
            match spec.resolve(reference_date, level, entries) {
                Err(e) => {
                    proof {
                        let f = resolve_selected(ev, level)->Err_0;
                        assert(resolve_all(sel0.take(idx + 1), level) == Err::<Seq<Seq<CalibrationInstrument<T>>>, (int, ResolveFailure)>((idx as int, f)));
                        lemma_resolve_all_err(sel0, level, idx + 1, (idx as int, f));
                    }
                    return Err(e);
                },
                Ok(()) => {},
            }
            let ghost inst = resolve_selected(ev, level)->Ok_0;
            let ghost before = resolved@;
            let ghost rv = spec;
            assert(resolved_from(rv@, sv, inst, reference_date));
            let key = spec.market_index().duplicate();
            insert_keyed(&mut resolved, key, spec);
            proof {
                lemma_resolved_step(before, resolved@, specs0.take(idx as int), done, rv, inst, sv, reference_date);
                assert(specs0.take(idx + 1) =~= specs0.take(idx as int).push(sv));
                done = done.push(inst);
            }
            idx = idx + 1;
        }
        proof {
            assert(sel0.take(n as int) =~= sel0);
            assert(specs0.take(n as int) =~= specs0);
        }
        match dependency_order(&resolved, &discount_policy) {
            Ok(order) => Ok(BootstrapPlan { curves: resolved, order, discount_policy, exchange_rate_store }),
            Err(e) => {
                proof {
                    assert(resolve_all(sel0, level)->Ok_0 == done);
                    assert(resolved_map(resolved@, specs0, done, reference_date));
                    if n == 0 {
                        assert(is_dependency_order(discount_policy@, resolved@, Seq::<IndexKey>::empty()));
                    }
                }
                Err(e)
            },
        }
    }

    /// The FX spot handed to the resolution of the curve with market index
    /// `k` (see [`Self::fx_spot_for`]).
    pub open spec fn fx_spot_of(&self, k: IndexKey) -> Option<T> {
        match k {
            IndexKey::Collateral(ccy, coll) => stored_rate(self.exchange_rate_store.rates@, coll, ccy),
            _ => None,
        }
    }

    /// Selects, for every configuration in order, its quotes through
    /// `selector` and builds their instruments with `build`, handing each
    /// curve the FX spot of [`Self::fx_spot_for`] (see [`select_quotes`]).
    pub fn select_all<S: QuoteSelector<T>, F: Fn(&Quote<T>, Date, Level, Option<T>) -> Result<BuiltInstrument<T>, QSError>>(
        &self,
        selector: &S,
        level: Level,
        build: &F,
    ) -> (r: Vec<Selection<T>>)
        requires
            forall|q: Quote<T>, d: Date, fx: Option<T>| #[trigger] build.requires((&q, d, level, fx)),
        ensures
            selected_all(r@, self, selector, level, build),
    {
        let mut out: Vec<Selection<T>> = Vec::new();
        let n = self.curve_specs.len();
        let mut i: usize = 0;
        while i < n
            invariant
                n == self.curve_specs@.len(),
                i <= n,
                out@.len() == i,
                forall|q: Quote<T>, d: Date, fx: Option<T>| #[trigger] build.requires((&q, d, level, fx)),
                forall|a: int| 0 <= a < i ==> selected_through((#[trigger] out@[a])@, self.curve_specs@[a]@.quotes, selector, level,
                    self.fx_spot_of(self.curve_specs@[a]@.market_index), build),
            decreases n - i,
        {
            let spec = &self.curve_specs[i];
            let fx_spot = self.fx_spot_for(spec.market_index());
            let ids = spec.quotes();
            proof {
                assert(fx_spot == self.fx_spot_of(self.curve_specs@[i as int]@.market_index));
                assert forall|q: Quote<T>, d: Date| #[trigger] build.requires((&q, d, level, fx_spot)) by {}
            }
            let chosen = select_quotes(ids, selector, level, fx_spot, build);
            out.push(chosen);
            proof {
                assert forall|a: int| 0 <= a < i + 1 implies selected_through((#[trigger] out@[a])@, self.curve_specs@[a]@.quotes, selector, level,
                    self.fx_spot_of(self.curve_specs@[a]@.market_index), build) by {
                    if a < i {
                        assert(out@[a] == out@.drop_last()[a]);
                    }
                }
            }
            i = i + 1;
        }
        out
    }

    /// Selects the quotes of every configuration through `selector` (see
    /// [`Self::select_all`]), then resolves the configurations at the
    /// selector's reference date and orders them (see
    /// [`Self::resolve_and_order`]).
    pub fn plan_bootstrap<S: QuoteSelector<T>, F: Fn(&Quote<T>, Date, Level, Option<T>) -> Result<BuiltInstrument<T>, QSError>>(
        self,
        selector: &S,
        level: Level,
        build: &F,
    ) -> (r: Result<BootstrapPlan<T>, QSError>)
        requires
            forall|q: Quote<T>, d: Date, fx: Option<T>| #[trigger] build.requires((&q, d, level, fx)),
        ensures
            exists|sel: Seq<Seq<Selected<T>>>| #[trigger] planned_from(r, sel, self, selector, level, build),
            self.curve_specs@.len() == 0 ==> r is Ok,
    {
        let selected = self.select_all(selector, level, build);
        let ghost sel = selection_views(selected@);
        let ghost this = self;
        let reference_date = selector.reference_date();
        proof {
            assert forall|i: int| 0 <= i < selected@.len() implies selection_fits(#[trigger] self.curve_specs@[i]@.quotes, selected@[i]@) by {
                assert(selected_through(selected@[i]@, self.curve_specs@[i]@.quotes, selector, level,
                    self.fx_spot_of(self.curve_specs@[i]@.market_index), build));
            }
        }
        let r = self.resolve_and_order(reference_date, level, selected);
        proof {
            assert(sel == selection_views(selected@));
            assert forall|i: int| 0 <= i < sel.len() implies #[trigger] sel[i] == selected@[i]@ by {}
            assert(planned_from(r, sel, this, selector, level, build));
        }
        r
    }
}

} // verus!
