//! Shared curve-bootstrap utilities: the order in which curves are bootstrapped.
use vstd::prelude::*;

use crate::bootstrapdiscountpolicy::{BootstrapDiscountPolicy, DiscountPolicyView};
use crate::calibration::CalibrationInstrument;
use crate::curveconfiguration::{curve_dependencies, instrument_dependencies, instruments_dependencies, lemma_curve_needs, CurveConfiguration};
use crate::instruments::BuiltInstrument;
use crate::depgraph::{kahn_order, well_formed_graph};
use crate::errors::QSError;
use crate::indexset::{distinct_indices, index_keys, remove_index};
use crate::marketindex::{IndexKey, MarketIndex};

verus! {

/// The market indices under which the curve configurations are registered.
pub open spec fn config_keys<T>(c: Seq<(MarketIndex, CurveConfiguration<T>)>) -> Seq<IndexKey> {
    c.map_values(|e: (MarketIndex, CurveConfiguration<T>)| e.0@)
}

/// No market index is registered twice.
pub open spec fn distinct_keys<T>(c: Seq<(MarketIndex, CurveConfiguration<T>)>) -> bool {
    forall|i: int, j: int| 0 <= i < j < c.len() ==> (#[trigger] c[i]).0@ != (#[trigger] c[j]).0@
}

/// The configuration has been resolved into at least one calibration instrument.
pub open spec fn is_resolved<T>(c: CurveConfiguration<T>) -> bool {
    c@.instruments matches Some(s) && s.len() > 0
}

/// `e` is the error that reports the configuration `c` as unusable: not
/// resolved, or resolved without any instrument, naming its market index.
pub open spec fn unresolved_error<T>(e: QSError, c: CurveConfiguration<T>) -> bool {
    ||| (e matches QSError::CurveNotResolved(i) && i@ == c@.market_index && c@.instruments is None)
    ||| (e matches QSError::NoCalibrationInstruments(i) && i@ == c@.market_index
        && (c@.instruments matches Some(s) && s.len() == 0))
}

/// The curves that the curve registered as `e.0` must be bootstrapped after:
/// its dependencies other than itself.
pub open spec fn curve_requirements<T>(p: DiscountPolicyView, e: (MarketIndex, CurveConfiguration<T>)) -> Set<IndexKey> {
    match e.1@.instruments {
        Some(s) => curve_dependencies(p, e.1@.market_index, s).remove(e.0@),
        None => Set::empty(),
    }
}

/// A curve is never required before itself; otherwise it must come after
/// exactly the curves its resolved instruments need (none while unresolved).
pub proof fn lemma_requirements<T>(p: DiscountPolicyView, e: (MarketIndex, CurveConfiguration<T>), k: IndexKey)
    ensures
        !curve_requirements(p, e).contains(e.0@),
        e.1@.instruments is None ==> !curve_requirements(p, e).contains(k),
        e.1@.instruments matches Some(s) ==> (k != e.0@ ==> (curve_requirements(p, e).contains(k)
            <==> k == e.1@.market_index || exists|a: int| 0 <= a < s.len() && instrument_dependencies(p, (#[trigger] s[a]).built).contains(k))),
{
    if e.1@.instruments is Some {
        let s = e.1@.instruments->Some_0;
        lemma_curve_needs(p, e.1@.market_index, s, k);
    }
}

/// `b` is a deposit that discounts on the curve `k` or names no discount curve.
pub open spec fn self_discounting_deposit<T>(b: BuiltInstrument<T>, k: IndexKey) -> bool {
    match b {
        BuiltInstrument::FixedRateDeposit(d) => match d.discount_index {
            Some(i) => i@ == k,
            None => true,
        },
        _ => false,
    }
}

/// Deposits that discount on the curve `k` need no curve but `k`.
proof fn lemma_deposit_dependencies<T>(p: DiscountPolicyView, s: Seq<CalibrationInstrument<T>>, k: IndexKey)
    requires
        forall|i: int| 0 <= i < s.len() ==> self_discounting_deposit(#[trigger] s[i].built, k),
    ensures
        forall|x: IndexKey| #[trigger] instruments_dependencies(p, s).contains(x) ==> x == k,
    decreases s.len(),
{
    if s.len() > 0 {
        let init = s.drop_last();
        assert forall|i: int| 0 <= i < init.len() implies self_discounting_deposit(#[trigger] init[i].built, k) by {
            assert(init[i] == s[i]);
        }
        lemma_deposit_dependencies(p, init, k);
        let last = s.last().built;
        assert(self_discounting_deposit(s[s.len() - 1].built, k));
        assert(instruments_dependencies(p, s) == instruments_dependencies(p, init).union(instrument_dependencies(p, last)));
        assert forall|x: IndexKey| #[trigger] instrument_dependencies(p, last).contains(x) implies x == k by {
            match last {
                BuiltInstrument::FixedRateDeposit(d) => {
                    match d.discount_index {
                        Some(_) => {},
                        None => {},
                    }
                },
                _ => {},
            }
        }
    }
}

/// A curve calibrated only on deposits that discount on the curve itself
/// requires no other curve, whatever the discount policy: such a curve can be
/// bootstrapped first, and no missing curve is reported for it.
pub proof fn lemma_self_discounting_curve_requires_nothing<T>(p: DiscountPolicyView, e: (MarketIndex, CurveConfiguration<T>), s: Seq<CalibrationInstrument<T>>)
    requires
        e.1@.instruments == Some(s),
        e.1@.market_index == e.0@,
        forall|i: int| 0 <= i < s.len() ==> self_discounting_deposit(#[trigger] s[i].built, e.0@),
    ensures
        curve_requirements(p, e) == Set::<IndexKey>::empty(),
{
    lemma_deposit_dependencies(p, s, e.0@);
    assert(curve_requirements(p, e) =~= Set::<IndexKey>::empty());
}

/// Every configuration is resolved.
pub open spec fn all_resolved<T>(c: Seq<(MarketIndex, CurveConfiguration<T>)>) -> bool {
    forall|a: int| 0 <= a < c.len() ==> is_resolved(#[trigger] c[a].1)
}

/// Every curve that some curve requires has a configuration.
pub open spec fn all_configured<T>(p: DiscountPolicyView, c: Seq<(MarketIndex, CurveConfiguration<T>)>) -> bool {
    forall|a: int, k: IndexKey| 0 <= a < c.len() && #[trigger] curve_requirements(p, c[a]).contains(k) ==> config_keys(c).contains(k)
}

/// `o` lists every configured curve once, each after the curves it requires.
pub open spec fn is_dependency_order<T>(p: DiscountPolicyView, c: Seq<(MarketIndex, CurveConfiguration<T>)>, o: Seq<IndexKey>) -> bool {
    &&& o.len() == c.len()
    &&& o.no_duplicates()
    &&& forall|i: int| 0 <= i < o.len() ==> config_keys(c).contains(#[trigger] o[i])
    &&& forall|a: int, k: IndexKey| 0 <= a < c.len() && #[trigger] curve_requirements(p, c[a]).contains(k) ==>
        exists|i: int, j: int| 0 <= i < j < o.len() && o[i] == k && o[j] == c[a].0@
}

/// Position of the configuration registered under `k`, if any.
fn find_curve<T>(c: &Vec<(MarketIndex, CurveConfiguration<T>)>, k: &MarketIndex) -> (r: Option<usize>)
    ensures
        r matches Some(x) ==> x < c@.len() && c@[x as int].0@ == k@,
        r is None ==> !config_keys(c@).contains(k@),
{
    let n = c.len();
    let mut i: usize = 0;
    while i < n
        invariant
            n == c@.len(),
            i <= n,
            forall|j: int| 0 <= j < i ==> c@[j].0@ != k@,
        decreases n - i,
    {
        if c[i].0.same_as(k) {
            return Some(i);
        }
        i = i + 1;
    }
    proof {
        if config_keys(c@).contains(k@) {
            let j = choose|j: int| 0 <= j < config_keys(c@).len() && config_keys(c@)[j] == k@;
            assert(c@[j].0@ == k@);
        }
    }
    None
}

/// For the configuration at `a`: the positions of the curves it requires, or
/// the error found on the way.
fn requirement_positions<T: Copy>(c: &Vec<(MarketIndex, CurveConfiguration<T>)>, a: usize, policy: &BootstrapDiscountPolicy) -> (r: Result<Vec<usize>, QSError>)
    requires
        a < c@.len(),
        distinct_keys(c@),
    ensures
        r matches Ok(v) ==> {
            &&& is_resolved(c@[a as int].1)
            &&& v@.no_duplicates()
            &&& forall|i: int| 0 <= i < v@.len() ==> v@[i] < c@.len()
            &&& forall|x: usize| #[trigger] v@.contains(x) ==> curve_requirements(policy@, c@[a as int]).contains(c@[x as int].0@)
            &&& forall|k: IndexKey| #[trigger] curve_requirements(policy@, c@[a as int]).contains(k) ==> exists|x: usize| v@.contains(x) && c@[x as int].0@ == k
        },
        r matches Err(e) ==> unresolved_error(e, c@[a as int].1)
            || (e matches QSError::MissingCurveConfiguration { curve, dependency } && curve@ == c@[a as int].0@
                && curve_requirements(policy@, c@[a as int]).contains(dependency@) && !config_keys(c@).contains(dependency@)),
{
    let mut deps = match c[a].1.dependencies(policy) {
        Ok(d) => d,
        Err(e) => return Err(e),
    };
    let ghost reqs = curve_requirements(policy@, c@[a as int]);
    remove_index(&mut deps, &c[a].0);
    let mut out: Vec<usize> = Vec::new();
    let n = deps.len();
    let mut j: usize = 0;
    while j < n
        invariant
            reqs == curve_requirements(policy@, c@[a as int]),
            a < c@.len(),
            distinct_keys(c@),
            is_resolved(c@[a as int].1),
            distinct_indices(deps@),
            index_keys(deps@) == reqs,
            n == deps@.len(),
            j <= n,
            out@.len() == j,
            forall|i: int| 0 <= i < j ==> out@[i] < c@.len() && c@[out@[i] as int].0@ == deps@[i]@,
        decreases n - j,
    {
        match find_curve(c, &deps[j]) {
            None => {
                proof {
                    assert(index_keys(deps@).contains(deps@[j as int]@));
                }
                return Err(QSError::MissingCurveConfiguration {
                    curve: c[a].0.duplicate(),
                    dependency: deps[j].duplicate(),
                });
            },
            Some(x) => {
                out.push(x);
            },
        }
        j = j + 1;
    }
    proof {
        assert forall|i: int, l: int| 0 <= i < out@.len() && 0 <= l < out@.len() && i != l implies out@[i] != out@[l] by {
            if i < l {
                assert(deps@[i]@ != deps@[l]@);
            } else {
                assert(deps@[l]@ != deps@[i]@);
            }
        }
        assert forall|x: usize| #[trigger] out@.contains(x) implies reqs.contains(c@[x as int].0@) by {
            let i = choose|i: int| 0 <= i < out@.len() && out@[i] == x;
            assert(index_keys(deps@).contains(deps@[i]@));
        }
        assert forall|k: IndexKey| #[trigger] reqs.contains(k) implies exists|x: usize| out@.contains(x) && c@[x as int].0@ == k by {
            assert(index_keys(deps@).contains(k));
            let i = choose|i: int| 0 <= i < deps@.len() && (#[trigger] deps@[i])@ == k;
            assert(out@[i] == out@[i]);
            assert(out@.contains(out@[i]));
        }
    }
    Ok(out)
}

/// Computes an ordering of the configured curves in which every curve comes
/// after the curves it depends on (a topological order of the dependency graph).
///
/// Errors: a configuration that is not resolved or has no instrument; a
/// required curve for which no configuration was provided; a circular dependency.
pub fn dependency_order<T: Copy>(curve_configs: &Vec<(MarketIndex, CurveConfiguration<T>)>, policy: &BootstrapDiscountPolicy) -> (r: Result<Vec<MarketIndex>, QSError>)
    requires
        distinct_keys(curve_configs@),
    ensures
        r matches Ok(o) ==> all_resolved(curve_configs@) && all_configured(policy@, curve_configs@)
            && is_dependency_order(policy@, curve_configs@, o@.map_values(|i: MarketIndex| i@)),
        r is Err ==> !all_resolved(curve_configs@) || !all_configured(policy@, curve_configs@)
            || forall|o: Seq<IndexKey>| !is_dependency_order(policy@, curve_configs@, o),
        r matches Err(e) ==> e is CurveNotResolved || e is NoCalibrationInstruments || e is MissingCurveConfiguration || e is CircularDependency,
        r matches Err(e) ==> ((e is CurveNotResolved || e is NoCalibrationInstruments) ==> !all_resolved(curve_configs@)),
        r matches Err(e) ==> ((e is CurveNotResolved || e is NoCalibrationInstruments) ==> exists|a: int|
            0 <= a < curve_configs@.len() && #[trigger] unresolved_error(e, curve_configs@[a].1)),
        r == Err::<Vec<MarketIndex>, QSError>(QSError::CircularDependency) ==> all_resolved(curve_configs@) && all_configured(policy@, curve_configs@)
            && forall|o: Seq<IndexKey>| !is_dependency_order(policy@, curve_configs@, o),
        r == Err::<Vec<MarketIndex>, QSError>(QSError::CircularDependency) ==> exists|w: Seq<int>| is_dependency_cycle(policy@, curve_configs@, w),
        r is Ok ==> forall|w: Seq<int>| !is_dependency_cycle(policy@, curve_configs@, w),
        all_resolved(curve_configs@) && all_configured(policy@, curve_configs@) ==> (r == Err::<Vec<MarketIndex>, QSError>(QSError::CircularDependency)
            <==> exists|w: Seq<int>| is_dependency_cycle(policy@, curve_configs@, w)),
        r matches Err(QSError::MissingCurveConfiguration { curve, dependency }) ==> exists|a: int|
            0 <= a < curve_configs@.len() && curve_configs@[a].0@ == curve@
            && #[trigger] curve_requirements(policy@, curve_configs@[a]).contains(dependency@)
            && !config_keys(curve_configs@).contains(dependency@),
{
    let ghost c = curve_configs@;
    let ghost p = policy@;
    let n = curve_configs.len();
    let mut graph: Vec<Vec<usize>> = Vec::new();
    let mut a: usize = 0;
    while a < n
        invariant
            c == curve_configs@,
            p == policy@,
            n == c.len(),
            distinct_keys(c),
            a <= n,
            graph@.len() == a,
            forall|b: int| 0 <= b < a ==> is_resolved(#[trigger] c[b].1),
            forall|b: int| 0 <= b < a ==> (#[trigger] graph@[b])@.no_duplicates(),
            forall|b: int, i: int| 0 <= b < a && 0 <= i < graph@[b]@.len() ==> (#[trigger] graph@[b]@[i]) < n,
            forall|b: int, x: usize| 0 <= b < a && #[trigger] graph@[b]@.contains(x) ==> curve_requirements(p, c[b]).contains(c[x as int].0@),
            forall|b: int, k: IndexKey| 0 <= b < a && #[trigger] curve_requirements(p, c[b]).contains(k) ==> exists|x: usize| graph@[b]@.contains(x) && c[x as int].0@ == k,
        decreases n - a,
    {
        let reqs = match requirement_positions(curve_configs, a, policy) {
            Ok(v) => v,
            Err(e) => {
                return Err(e);
            },
        };
        let ghost rv = reqs@;
        let ghost before = graph@;
        graph.push(reqs);
        proof {
            assert(graph@[a as int]@ == rv);
            assert forall|b: int| 0 <= b < a implies graph@[b] == before[b] by {}
            assert forall|b: int, x: usize| 0 <= b < a + 1 && #[trigger] graph@[b]@.contains(x) implies curve_requirements(p, c[b]).contains(c[x as int].0@) by {}
            assert forall|b: int, k: IndexKey| 0 <= b < a + 1 && #[trigger] curve_requirements(p, c[b]).contains(k) implies exists|x: usize| graph@[b]@.contains(x) && c[x as int].0@ == k by {
                if b < a {
                    let x = choose|x: usize| before[b]@.contains(x) && c[x as int].0@ == k;
                    assert(graph@[b]@.contains(x));
                } else {
                    let x = choose|x: usize| rv.contains(x) && c[x as int].0@ == k;
                    assert(graph@[b]@.contains(x));
                }
            }
        }
        a = a + 1;
    }
    let ghost g = graph@.map_values(|v: Vec<usize>| v@);
    proof {
        assert forall|b: int| 0 <= b < n implies (#[trigger] g[b]).no_duplicates() by {
            assert(g[b] == graph@[b]@);
        }
        assert forall|b: int, i: int| 0 <= b < n && 0 <= i < g[b].len() implies (#[trigger] g[b][i]) < n by {
            assert(g[b] == graph@[b]@);
        }
        assert(well_formed_graph(g, n as nat));
        assert(all_resolved(c));
        assert forall|b: int, k: IndexKey| 0 <= b < c.len() && #[trigger] curve_requirements(p, c[b]).contains(k) implies config_keys(c).contains(k) by {
            let x = choose|x: usize| graph@[b]@.contains(x) && c[x as int].0@ == k;
            let i = choose|i: int| 0 <= i < graph@[b]@.len() && graph@[b]@[i] == x;
            assert(config_keys(c)[x as int] == k);
        }
    }
    let queue = kahn_order(&graph, n);
    if queue.len() < n {
        proof {
            assert forall|b: int, x: usize| 0 <= b < c.len() && #[trigger] g[b].contains(x) implies x < c.len() && curve_requirements(p, c[b]).contains(c[x as int].0@) by {
                assert(g[b] == graph@[b]@);
                let i = choose|i: int| 0 <= i < g[b].len() && g[b][i] == x;
                assert(graph@[b]@[i] < n);
            }
            assert forall|a2: usize| #![trigger g[a2 as int]] a2 < c.len() && !queue@.contains(a2) implies exists|x: usize| g[a2 as int].contains(x) && !queue@.contains(x) by {
                assert(g[a2 as int] == graph@[a2 as int]@);
            }
            lemma_circular(p, c, g, queue@);
            lemma_left_out_cycle(p, c, g, queue@);
        }
        return Err(QSError::CircularDependency);
    }
    let mut order: Vec<MarketIndex> = Vec::new();
    let mut i: usize = 0;
    while i < n
        invariant
            c == curve_configs@,
            n == c.len(),
            queue@.len() == n,
            forall|j: int| 0 <= j < queue@.len() ==> queue@[j] < n,
            i <= n,
            order@.len() == i,
            forall|j: int| 0 <= j < i ==> (#[trigger] order@[j])@ == c[queue@[j] as int].0@,
        decreases n - i,
    {
        order.push(curve_configs[queue[i]].0.duplicate());
        i = i + 1;
    }
    proof {
        assert forall|b: int, k: IndexKey| 0 <= b < c.len() && #[trigger] curve_requirements(p, c[b]).contains(k) implies exists|x: usize| g[b].contains(x) && c[x as int].0@ == k by {
            assert(g[b] == graph@[b]@);
        }
        assert forall|k: int, x: usize| 0 <= k < queue@.len() && g[queue@[k] as int].contains(x) implies exists|j: int| 0 <= j < k && queue@[j] == x by {
            assert(g[queue@[k] as int] == graph@[queue@[k] as int]@);
        }
        lemma_ordered(p, c, g, queue@, order@.map_values(|i: MarketIndex| i@));
        assert forall|w: Seq<int>| !is_dependency_cycle(p, c, w) by {
            if is_dependency_cycle(p, c, w) {
                lemma_cycle_means_no_order(p, c, w);
            }
        }
    }
    Ok(order)
}


/// `w` is a cycle of the dependency graph, by position: it starts and ends
/// at the same configured curve, and each curve on it requires the next.
pub open spec fn is_dependency_cycle<T>(p: DiscountPolicyView, c: Seq<(MarketIndex, CurveConfiguration<T>)>, w: Seq<int>) -> bool {
    &&& w.len() >= 2
    &&& forall|t: int| 0 <= t < w.len() ==> 0 <= #[trigger] w[t] < c.len()
    &&& w[0] == w[w.len() - 1]
    &&& forall|t: int| 0 <= t < w.len() - 1 ==> curve_requirements(p, c[#[trigger] w[t]]).contains(c[w[t + 1]].0@)
}

/// Position of the key `k` in an ordering without repetition that holds it.
spec fn key_position(o: Seq<IndexKey>, k: IndexKey) -> int {
    choose|i: int| 0 <= i < o.len() && o[i] == k
}

/// Along a dependency order, each curve of a walk in the dependency graph
/// comes after the curves the walk reaches from it.
proof fn lemma_walk_positions<T>(p: DiscountPolicyView, c: Seq<(MarketIndex, CurveConfiguration<T>)>, w: Seq<int>, o: Seq<IndexKey>, m: int)
    requires
        is_dependency_order(p, c, o),
        w.len() >= 2,
        forall|t: int| 0 <= t < w.len() ==> 0 <= #[trigger] w[t] < c.len(),
        forall|t: int| 0 <= t < w.len() - 1 ==> curve_requirements(p, c[#[trigger] w[t]]).contains(c[w[t + 1]].0@),
        1 <= m < w.len(),
    ensures
        o.contains(c[w[0]].0@),
        o.contains(c[w[m]].0@),
        key_position(o, c[w[m]].0@) < key_position(o, c[w[0]].0@),
    decreases m,
{
    let t = m - 1;
    assert(curve_requirements(p, c[w[t]]).contains(c[w[t + 1]].0@));
    let (i, j) = choose|i: int, j: int| 0 <= i < j < o.len() && o[i] == c[w[t + 1]].0@ && o[j] == c[w[t]].0@;
    assert(o[i] == c[w[m]].0@);
    assert(o.contains(c[w[m]].0@));
    assert(o.contains(c[w[t]].0@));
    let pi = key_position(o, c[w[m]].0@);
    let pj = key_position(o, c[w[t]].0@);
    assert(o.no_duplicates());
    assert(pi == i);
    assert(pj == j);
    if m > 1 {
        lemma_walk_positions(p, c, w, o, m - 1);
    }
}

/// A curve on a dependency cycle would have to come before itself: when the
/// dependency graph has a cycle, no dependency order exists.
pub proof fn lemma_cycle_means_no_order<T>(p: DiscountPolicyView, c: Seq<(MarketIndex, CurveConfiguration<T>)>, w: Seq<int>)
    requires
        is_dependency_cycle(p, c, w),
    ensures
        forall|o: Seq<IndexKey>| !is_dependency_order(p, c, o),
{
    assert forall|o: Seq<IndexKey>| !is_dependency_order(p, c, o) by {
        if is_dependency_order(p, c, o) {
            lemma_walk_positions(p, c, w, o, w.len() - 1);
        }
    }
}

/// The next curve left out of `q` that the left-out curve `a` requires.
spec fn next_left_out(g: Seq<Seq<usize>>, q: Seq<usize>, a: usize) -> usize {
    choose|x: usize| g[a as int].contains(x) && !q.contains(x)
}

/// A walk of `k` steps from `a0` through curves left out of `q`.
spec fn left_out_walk(g: Seq<Seq<usize>>, q: Seq<usize>, a0: usize, k: nat) -> Seq<usize>
    decreases k,
{
    if k == 0 {
        seq![a0]
    } else {
        let w = left_out_walk(g, q, a0, (k - 1) as nat);
        w.push(next_left_out(g, q, w.last()))
    }
}

/// The walk stays among the left-out curves and follows the graph.
proof fn lemma_left_out_walk(g: Seq<Seq<usize>>, q: Seq<usize>, a0: usize, k: nat, n: nat)
    requires
        g.len() == n,
        a0 < n,
        !q.contains(a0),
        forall|b: int, x: usize| 0 <= b < n && #[trigger] g[b].contains(x) ==> x < n,
        forall|a: usize| #![trigger g[a as int]] a < n && !q.contains(a) ==> exists|x: usize| g[a as int].contains(x) && !q.contains(x),
    ensures
        left_out_walk(g, q, a0, k).len() == k + 1,
        forall|t: int| 0 <= t <= k ==> (#[trigger] left_out_walk(g, q, a0, k)[t]) < n && !q.contains(left_out_walk(g, q, a0, k)[t]),
        forall|t: int| 0 <= t < k ==> g[(#[trigger] left_out_walk(g, q, a0, k)[t]) as int].contains(left_out_walk(g, q, a0, k)[t + 1]),
    decreases k,
{
    if k > 0 {
        lemma_left_out_walk(g, q, a0, (k - 1) as nat, n);
        let w = left_out_walk(g, q, a0, (k - 1) as nat);
        let a = w.last();
        assert(w[k - 1] == a);
        assert(a < n && !q.contains(a));
        assert(g[a as int] == g[a as int]);
        let x = next_left_out(g, q, a);
        assert(g[a as int].contains(x) && !q.contains(x));
        let w2 = left_out_walk(g, q, a0, k);
        assert(w2 == w.push(x));
        assert forall|t: int| 0 <= t <= k implies (#[trigger] w2[t]) < n && !q.contains(w2[t]) by {
            if t < k {
                assert(w2[t] == w[t]);
            }
        }
        assert forall|t: int| 0 <= t < k implies g[(#[trigger] w2[t]) as int].contains(w2[t + 1]) by {
            if t < k - 1 {
                assert(w2[t] == w[t] && w2[t + 1] == w[t + 1]);
            }
        }
    }
}

/// A sequence longer than `n` of integers in `[0, n)` repeats one of them.
proof fn lemma_pigeonhole(w: Seq<int>, n: int)
    requires
        0 <= n,
        w.len() > n,
        forall|t: int| 0 <= t < w.len() ==> 0 <= #[trigger] w[t] < n,
    ensures
        exists|i: int, j: int| 0 <= i < j < w.len() && w[i] == w[j],
{
    if w.no_duplicates() {
        w.unique_seq_to_set();
        vstd::set_lib::lemma_int_range(0, n);
        assert(w.to_set().subset_of(vstd::set_lib::set_int_range(0, n)));
        vstd::set_lib::lemma_len_subset(w.to_set(), vstd::set_lib::set_int_range(0, n));
    }
    assert(!w.no_duplicates());
    let (i, j) = choose|i: int, j: int| 0 <= i < w.len() && 0 <= j < w.len() && i != j && w[i] == w[j];
    if i > j {
        assert(0 <= j < i < w.len() && w[j] == w[i]);
    }
}

/// When every curve left out of a Kahn ordering requires another left-out
/// curve, the dependency graph has a cycle.
proof fn lemma_left_out_cycle<T>(p: DiscountPolicyView, c: Seq<(MarketIndex, CurveConfiguration<T>)>, g: Seq<Seq<usize>>, q: Seq<usize>)
    requires
        g.len() == c.len(),
        forall|b: int, x: usize| 0 <= b < c.len() && #[trigger] g[b].contains(x) ==> x < c.len() && curve_requirements(p, c[b]).contains(c[x as int].0@),
        exists|a: usize| a < c.len() && !q.contains(a),
        forall|a: usize| #![trigger g[a as int]] a < c.len() && !q.contains(a) ==> exists|x: usize| g[a as int].contains(x) && !q.contains(x),
    ensures
        exists|w: Seq<int>| is_dependency_cycle(p, c, w),
{
    let n = c.len();
    let a0 = choose|a: usize| a < c.len() && !q.contains(a);
    assert forall|b: int, x: usize| 0 <= b < n && #[trigger] g[b].contains(x) implies x < n by {}
    lemma_left_out_walk(g, q, a0, n, n);
    let w = left_out_walk(g, q, a0, n);
    let wi = w.map_values(|x: usize| x as int);
    assert forall|t: int| 0 <= t < wi.len() implies 0 <= #[trigger] wi[t] < n by {
        assert(w[t] < n);
    }
    lemma_pigeonhole(wi, n as int);
    let (i, j) = choose|i: int, j: int| 0 <= i < j < wi.len() && wi[i] == wi[j];
    let cyc = wi.subrange(i, j + 1);
    assert forall|t: int| 0 <= t < cyc.len() - 1 implies curve_requirements(p, c[#[trigger] cyc[t]]).contains(c[cyc[t + 1]].0@) by {
        assert(cyc[t] == w[i + t] as int && cyc[t + 1] == w[i + t + 1] as int);
        assert(g[w[i + t] as int].contains(w[i + t + 1]));
    }
    assert forall|t: int| 0 <= t < cyc.len() implies 0 <= #[trigger] cyc[t] < c.len() by {
        assert(cyc[t] == wi[i + t]);
    }
    assert(is_dependency_cycle(p, c, cyc));
}

/// The curves left out of `q` each require another curve left out: no order exists.
proof fn lemma_circular<T>(p: DiscountPolicyView, c: Seq<(MarketIndex, CurveConfiguration<T>)>, g: Seq<Seq<usize>>, q: Seq<usize>)
    requires
        g.len() == c.len(),
        q.len() < c.len(),
        forall|b: int, x: usize| 0 <= b < c.len() && #[trigger] g[b].contains(x) ==> x < c.len() && curve_requirements(p, c[b]).contains(c[x as int].0@),
        exists|a: usize| a < c.len() && !q.contains(a),
        forall|a: usize| #![trigger g[a as int]] a < c.len() && !q.contains(a) ==> exists|x: usize| g[a as int].contains(x) && !q.contains(x),
    ensures
        forall|o: Seq<IndexKey>| !is_dependency_order(p, c, o),
{
    let keys = config_keys(c);
    let req = |a: int, k: IndexKey| curve_requirements(p, c[a]).contains(k);
    assert forall|b: int, x: usize| 0 <= b < keys.len() && #[trigger] g[b].contains(x) implies x < keys.len() && req(b, keys[x as int]) by {}
    assert forall|o: Seq<IndexKey>| !is_dependency_order(p, c, o) by {
        lemma_no_order(keys, req, g, q, o);
        if is_dependency_order(p, c, o) {
            assert forall|a2: int, k: IndexKey| 0 <= a2 < keys.len() && #[trigger] req(a2, k) implies exists|i: int, j: int| 0 <= i < j < o.len() && o[i] == k && o[j] == keys[a2] by {
                assert(curve_requirements(p, c[a2]).contains(k));
            }
        }
    }
}

/// The curves listed in the order of a complete Kahn ordering form a dependency order.
proof fn lemma_ordered<T>(p: DiscountPolicyView, c: Seq<(MarketIndex, CurveConfiguration<T>)>, g: Seq<Seq<usize>>, q: Seq<usize>, o: Seq<IndexKey>)
    requires
        c.len() <= usize::MAX,
        distinct_keys(c),
        q.len() == c.len(),
        q.no_duplicates(),
        forall|j: int| 0 <= j < q.len() ==> q[j] < c.len(),
        forall|a: usize| a < c.len() ==> q.contains(a),
        o.len() == q.len(),
        forall|j: int| 0 <= j < o.len() ==> #[trigger] o[j] == c[q[j] as int].0@,
        forall|b: int, k: IndexKey| 0 <= b < c.len() && #[trigger] curve_requirements(p, c[b]).contains(k) ==> exists|x: usize| g[b].contains(x) && c[x as int].0@ == k,
        forall|k: int, x: usize| 0 <= k < q.len() && g[q[k] as int].contains(x) ==> exists|j: int| 0 <= j < k && q[j] == x,
    ensures
        is_dependency_order(p, c, o),
{
    assert forall|j: int| 0 <= j < o.len() implies config_keys(c).contains(#[trigger] o[j]) by {
        assert(config_keys(c)[q[j] as int] == o[j]);
    }
    assert(o.no_duplicates()) by {
        assert forall|x: int, y: int| 0 <= x < o.len() && 0 <= y < o.len() && x != y implies o[x] != o[y] by {
            assert(o[x] == c[q[x] as int].0@ && o[y] == c[q[y] as int].0@);
            assert(q[x] != q[y]);
            if q[x] < q[y] {
                assert(c[q[x] as int].0@ != c[q[y] as int].0@);
            } else {
                assert(c[q[y] as int].0@ != c[q[x] as int].0@);
            }
        }
    }
    assert forall|b: int, k: IndexKey| 0 <= b < c.len() && #[trigger] curve_requirements(p, c[b]).contains(k) implies
        exists|x: int, y: int| 0 <= x < y < o.len() && o[x] == k && o[y] == c[b].0@ by {
        let x = choose|x: usize| g[b].contains(x) && c[x as int].0@ == k;
        assert(q.contains(b as usize));
        let y = choose|y: int| 0 <= y < q.len() && q[y] == b as usize;
        assert(g[q[y] as int].contains(x));
        let w = choose|w: int| 0 <= w < y && q[w] == x;
        assert(o[w] == k);
        assert(o[y] == c[b].0@);
    }
}

/// When the nodes left out of `q` each require another node left out, no
/// ordering of `keys` puts every key after the keys it requires.
proof fn lemma_no_order(keys: Seq<IndexKey>, req: spec_fn(int, IndexKey) -> bool, g: Seq<Seq<usize>>, q: Seq<usize>, o: Seq<IndexKey>)
    requires
        g.len() == keys.len(),
        forall|b: int, x: usize| 0 <= b < keys.len() && #[trigger] g[b].contains(x) ==> x < keys.len() && req(b, keys[x as int]),
        exists|a: usize| a < keys.len() && !q.contains(a),
        forall|a: usize| #![trigger g[a as int]] a < keys.len() && !q.contains(a) ==> exists|x: usize| g[a as int].contains(x) && !q.contains(x),
    ensures
        !respects(keys, req, o),
{
    if respects(keys, req, o) {
        let a0 = choose|a: usize| a < keys.len() && !q.contains(a);
        assert(g[a0 as int] == g[a0 as int]);
        let x0 = choose|x: usize| g[a0 as int].contains(x) && !q.contains(x);
        assert(req(a0 as int, keys[x0 as int]));
        let (i0, j0) = choose|i: int, j: int| 0 <= i < j < o.len() && o[i] == keys[x0 as int] && o[j] == keys[a0 as int];
        lemma_left_out_not_placed(keys, req, g, q, o, j0 + 1);
        assert(o[j0] != keys[a0 as int]);
    }
}

/// `o` is without repetition and puts every key after the keys it requires.
pub open spec fn respects(keys: Seq<IndexKey>, req: spec_fn(int, IndexKey) -> bool, o: Seq<IndexKey>) -> bool {
    &&& o.no_duplicates()
    &&& forall|a: int, k: IndexKey| 0 <= a < keys.len() && #[trigger] req(a, k) ==> exists|i: int, j: int| 0 <= i < j < o.len() && o[i] == k && o[j] == keys[a]
}

/// No position before `k` of such an ordering holds a key left out of `q`.
proof fn lemma_left_out_not_placed(keys: Seq<IndexKey>, req: spec_fn(int, IndexKey) -> bool, g: Seq<Seq<usize>>, q: Seq<usize>, o: Seq<IndexKey>, k: int)
    requires
        g.len() == keys.len(),
        forall|b: int, x: usize| 0 <= b < keys.len() && #[trigger] g[b].contains(x) ==> x < keys.len() && req(b, keys[x as int]),
        forall|a: usize| #![trigger g[a as int]] a < keys.len() && !q.contains(a) ==> exists|x: usize| g[a as int].contains(x) && !q.contains(x),
        respects(keys, req, o),
        0 <= k <= o.len(),
    ensures
        forall|i: int, a: usize| #![trigger o[i], keys[a as int]] 0 <= i < k && a < keys.len() && !q.contains(a) ==> o[i] != keys[a as int],
    decreases k,
{
    if k > 0 {
        lemma_left_out_not_placed(keys, req, g, q, o, k - 1);
        assert forall|i: int, a: usize| #![trigger o[i], keys[a as int]] 0 <= i < k && a < keys.len() && !q.contains(a) implies o[i] != keys[a as int] by {
            if i == k - 1 && o[i] == keys[a as int] {
                assert(g[a as int] == g[a as int]);
                let x = choose|x: usize| g[a as int].contains(x) && !q.contains(x);
                assert(req(a as int, keys[x as int]));
                let (u, v) = choose|u: int, v: int| 0 <= u < v < o.len() && o[u] == keys[x as int] && o[v] == keys[a as int];
                assert(o.no_duplicates());
                assert(v == i);
                assert(o[u] != keys[x as int]);
            }
        }
    }
}

} // verus!
