//! Single-curve interest-rate bootstrapper configured by a curve preset.
use vstd::prelude::*;

use crate::errors::QSError;
use crate::marketindex::MarketIndex;
use crate::quote::QuoteInstrument;
use crate::time::{date_le, Date, Interpolator};

verus! {

/// The bootstrapper builds pillars from deposits and OIS swaps.
pub open spec fn bootstrappable(i: QuoteInstrument) -> bool {
    i == QuoteInstrument::FixedRateDeposit || i == QuoteInstrument::OIS
}

/// The positions of the quotes `(instrument, maturity)` that give pillars, in
/// order: a quote maturing on or before the reference date, or on a maturity
/// already taken by an earlier pillar, is skipped; the first quote that would
/// be kept but is neither a deposit nor an OIS swap is an error.
pub open spec fn pillar_selection(reference_date: Date, quotes: Seq<(QuoteInstrument, Date)>) -> Result<Seq<int>, QSError>
    decreases quotes.len(),
{
    if quotes.len() == 0 {
        Ok(Seq::empty())
    } else {
        match pillar_selection(reference_date, quotes.drop_last()) {
            Err(e) => Err(e),
            Ok(kept) => {
                let m = quotes.last().1;
                if date_le(m, reference_date) || exists|j: int| 0 <= j < kept.len() && quotes[#[trigger] kept[j]].1 == m {
                    Ok(kept)
                } else if bootstrappable(quotes.last().0) {
                    Ok(kept.push(quotes.len() - 1))
                } else {
                    Err(QSError::UnsupportedBootstrapQuote)
                }
            },
        }
    }
}

/// Every kept position is a quote maturing after the reference date that is a
/// deposit or an OIS swap; kept positions increase and their maturities differ.
#[verifier::opaque]
pub open spec fn kept_valid(reference_date: Date, q: Seq<(QuoteInstrument, Date)>, kept: Seq<int>) -> bool {
    &&& forall|j: int| 0 <= j < kept.len() ==> 0 <= #[trigger] kept[j] < q.len()
        && !date_le(q[kept[j]].1, reference_date) && bootstrappable(q[kept[j]].0)
    &&& forall|j: int, k: int| 0 <= j < k < kept.len() ==> #[trigger] kept[j] < #[trigger] kept[k]
        && q[kept[j]].1 != q[kept[k]].1
}

/// Every quote maturing after the reference date has its maturity taken by a
/// kept quote at or before it.
#[verifier::opaque]
pub open spec fn kept_covers(reference_date: Date, q: Seq<(QuoteInstrument, Date)>, kept: Seq<int>) -> bool {
    forall|i: int| 0 <= i < q.len() && !date_le(#[trigger] q[i].1, reference_date)
        ==> exists|j: int| 0 <= j < kept.len() && kept[j] <= i && q[#[trigger] kept[j]].1 == q[i].1
}

/// The quote at `i` matures after the reference date, on a maturity that no
/// earlier quote maturing after the reference date has, and is neither a
/// deposit nor an OIS swap.
#[verifier::opaque]
pub open spec fn first_unsupported(reference_date: Date, q: Seq<(QuoteInstrument, Date)>, i: int) -> bool {
    &&& 0 <= i < q.len()
    &&& !bootstrappable(q[i].0)
    &&& !date_le(q[i].1, reference_date)
    &&& forall|h: int| 0 <= h < i ==> date_le(#[trigger] q[h].1, reference_date) || q[h].1 != q[i].1
}

/// Keeping what was kept for all but the last quote stays valid, and covers
/// the quotes before the last.
proof fn lemma_choice_prefix(reference_date: Date, q: Seq<(QuoteInstrument, Date)>, kept: Seq<int>)
    requires
        q.len() > 0,
        kept_valid(reference_date, q.drop_last(), kept),
        kept_covers(reference_date, q.drop_last(), kept),
    ensures
        kept_valid(reference_date, q, kept),
        forall|j: int| 0 <= j < kept.len() ==> #[trigger] kept[j] < q.len() - 1,
        forall|i: int| 0 <= i < q.len() - 1 && !date_le(#[trigger] q[i].1, reference_date)
            ==> exists|j: int| 0 <= j < kept.len() && kept[j] <= i && q[#[trigger] kept[j]].1 == q[i].1,
{
    reveal(kept_valid);
    reveal(kept_covers);
    let init = q.drop_last();
    assert forall|x: int| 0 <= x < q.len() - 1 implies #[trigger] q[x] == init[x] by {}
    assert forall|j: int| 0 <= j < kept.len() implies 0 <= #[trigger] kept[j] < q.len()
        && !date_le(q[kept[j]].1, reference_date) && bootstrappable(q[kept[j]].0) by {
        assert(q[kept[j]] == init[kept[j]]);
    }
    assert forall|j: int, k: int| 0 <= j < k < kept.len() implies #[trigger] kept[j] < #[trigger] kept[k]
        && q[kept[j]].1 != q[kept[k]].1 by {
        assert(q[kept[j]] == init[kept[j]]);
        assert(q[kept[k]] == init[kept[k]]);
    }
    assert forall|i: int| 0 <= i < q.len() - 1 && !date_le(#[trigger] q[i].1, reference_date)
        implies exists|j: int| 0 <= j < kept.len() && kept[j] <= i && q[#[trigger] kept[j]].1 == q[i].1 by {
        assert(init[i] == q[i]);
        let j = choose|j: int| 0 <= j < kept.len() && kept[j] <= i && init[#[trigger] kept[j]].1 == init[i].1;
        assert(q[kept[j]] == init[kept[j]]);
    }
}

/// A last quote maturing on or before the reference date, or on a kept
/// maturity, is skipped and what was kept still covers every quote.
proof fn lemma_choice_skip(reference_date: Date, q: Seq<(QuoteInstrument, Date)>, kept: Seq<int>)
    requires
        q.len() > 0,
        kept_valid(reference_date, q.drop_last(), kept),
        kept_covers(reference_date, q.drop_last(), kept),
        date_le(q.last().1, reference_date) || exists|j: int| 0 <= j < kept.len() && q[#[trigger] kept[j]].1 == q.last().1,
    ensures
        kept_valid(reference_date, q, kept),
        kept_covers(reference_date, q, kept),
{
    lemma_choice_prefix(reference_date, q, kept);
    reveal(kept_covers);
    let n = q.len() - 1;
    assert(q[n] == q.last());
    assert forall|i: int| 0 <= i < q.len() && !date_le(#[trigger] q[i].1, reference_date)
        implies exists|j: int| 0 <= j < kept.len() && kept[j] <= i && q[#[trigger] kept[j]].1 == q[i].1 by {
        if i == n {
            let j = choose|j: int| 0 <= j < kept.len() && q[#[trigger] kept[j]].1 == q.last().1;
        }
    }
}

/// A last quote maturing after the reference date on a new maturity that is
/// a deposit or an OIS swap is kept, and the choice stays valid and covering.
proof fn lemma_choice_push(reference_date: Date, q: Seq<(QuoteInstrument, Date)>, kept: Seq<int>)
    requires
        q.len() > 0,
        kept_valid(reference_date, q.drop_last(), kept),
        kept_covers(reference_date, q.drop_last(), kept),
        !date_le(q.last().1, reference_date),
        !(exists|j: int| 0 <= j < kept.len() && q[#[trigger] kept[j]].1 == q.last().1),
        bootstrappable(q.last().0),
    ensures
        kept_valid(reference_date, q, kept.push(q.len() - 1)),
        kept_covers(reference_date, q, kept.push(q.len() - 1)),
{
    lemma_choice_prefix(reference_date, q, kept);
    lemma_choice_push_valid(reference_date, q, kept);
    lemma_choice_push_covers(reference_date, q, kept);
}

proof fn lemma_choice_push_valid(reference_date: Date, q: Seq<(QuoteInstrument, Date)>, kept: Seq<int>)
    requires
        q.len() > 0,
        kept_valid(reference_date, q, kept),
        forall|j: int| 0 <= j < kept.len() ==> #[trigger] kept[j] < q.len() - 1,
        !date_le(q.last().1, reference_date),
        !(exists|j: int| 0 <= j < kept.len() && q[#[trigger] kept[j]].1 == q.last().1),
        bootstrappable(q.last().0),
    ensures
        kept_valid(reference_date, q, kept.push(q.len() - 1)),
{
    reveal(kept_valid);
    let n = q.len() - 1;
    let nk = kept.push(n);
    assert(q[n] == q.last());
    assert forall|j: int| 0 <= j < nk.len() implies 0 <= #[trigger] nk[j] < q.len()
        && !date_le(q[nk[j]].1, reference_date) && bootstrappable(q[nk[j]].0) by {
        if j < kept.len() {
            assert(nk[j] == kept[j]);
        }
    }
    assert forall|j: int, k: int| 0 <= j < k < nk.len() implies #[trigger] nk[j] < #[trigger] nk[k]
        && q[nk[j]].1 != q[nk[k]].1 by {
        assert(nk[j] == kept[j]);
        if k < kept.len() {
            assert(nk[k] == kept[k]);
        } else {
            assert(nk[k] == n);
        }
    }
}

proof fn lemma_choice_push_covers(reference_date: Date, q: Seq<(QuoteInstrument, Date)>, kept: Seq<int>)
    requires
        q.len() > 0,
        forall|i: int| 0 <= i < q.len() - 1 && !date_le(#[trigger] q[i].1, reference_date)
            ==> exists|j: int| 0 <= j < kept.len() && kept[j] <= i && q[#[trigger] kept[j]].1 == q[i].1,
    ensures
        kept_covers(reference_date, q, kept.push(q.len() - 1)),
{
    reveal(kept_covers);
    let n = q.len() - 1;
    let nk = kept.push(n);
    assert forall|i: int| 0 <= i < q.len() && !date_le(#[trigger] q[i].1, reference_date)
        implies exists|j: int| 0 <= j < nk.len() && nk[j] <= i && q[#[trigger] nk[j]].1 == q[i].1 by {
        if i < n {
            let j = choose|j: int| 0 <= j < kept.len() && kept[j] <= i && q[#[trigger] kept[j]].1 == q[i].1;
            assert(nk[j] == kept[j]);
        } else {
            assert(nk[kept.len() as int] == n);
        }
    }
}

/// A last quote maturing after the reference date on a new maturity that is
/// neither a deposit nor an OIS swap is the first unsupported quote.
proof fn lemma_choice_fail(reference_date: Date, q: Seq<(QuoteInstrument, Date)>, kept: Seq<int>)
    requires
        q.len() > 0,
        kept_valid(reference_date, q.drop_last(), kept),
        kept_covers(reference_date, q.drop_last(), kept),
        !date_le(q.last().1, reference_date),
        !(exists|j: int| 0 <= j < kept.len() && q[#[trigger] kept[j]].1 == q.last().1),
        !bootstrappable(q.last().0),
    ensures
        first_unsupported(reference_date, q, q.len() - 1),
{
    lemma_choice_prefix(reference_date, q, kept);
    reveal(first_unsupported);
    let n = q.len() - 1;
    assert(q[n] == q.last());
    assert forall|h: int| 0 <= h < n implies date_le(#[trigger] q[h].1, reference_date) || q[h].1 != q[n].1 by {
        if !date_le(q[h].1, reference_date) && q[h].1 == q[n].1 {
            let j = choose|j: int| 0 <= j < kept.len() && kept[j] <= h && q[#[trigger] kept[j]].1 == q[h].1;
        }
    }
}

/// The first unsupported quote of all but the last quote is the first of all.
proof fn lemma_choice_fail_extends(reference_date: Date, q: Seq<(QuoteInstrument, Date)>, i: int)
    requires
        q.len() > 0,
        first_unsupported(reference_date, q.drop_last(), i),
    ensures
        first_unsupported(reference_date, q, i),
{
    reveal(first_unsupported);
    let init = q.drop_last();
    assert(q[i] == init[i]);
    assert forall|h: int| 0 <= h < i implies date_le(#[trigger] q[h].1, reference_date) || q[h].1 != q[i].1 by {
        assert(q[h] == init[h]);
    }
}

/// The pillars chosen from quotes `(instrument, maturity)`: every kept quote
/// matures after the reference date and is a deposit or an OIS swap; kept
/// positions increase and their maturities differ; and every quote maturing
/// after the reference date has its maturity taken by a kept quote at or
/// before it. The choice fails only at a quote maturing after the reference
/// date on a maturity no earlier such quote has, which is neither a deposit
/// nor an OIS swap.
pub proof fn lemma_pillar_choice(reference_date: Date, q: Seq<(QuoteInstrument, Date)>)
    ensures
        pillar_selection(reference_date, q) matches Ok(kept) ==> kept_valid(reference_date, q, kept) && kept_covers(reference_date, q, kept),
        pillar_selection(reference_date, q) matches Err(e) ==> e == QSError::UnsupportedBootstrapQuote
            && exists|i: int| first_unsupported(reference_date, q, i),
    decreases q.len(),
{
    if q.len() == 0 {
        reveal(kept_valid);
        reveal(kept_covers);
    } else {
        let init = q.drop_last();
        lemma_pillar_choice(reference_date, init);
        match pillar_selection(reference_date, init) {
            Err(e) => {
                let i = choose|i: int| first_unsupported(reference_date, init, i);
                lemma_choice_fail_extends(reference_date, q, i);
            },
            Ok(kept) => {
                let m = q.last().1;
                if date_le(m, reference_date) || exists|j: int| 0 <= j < kept.len() && q[#[trigger] kept[j]].1 == m {
                    lemma_choice_skip(reference_date, q, kept);
                } else if bootstrappable(q.last().0) {
                    lemma_choice_push(reference_date, q, kept);
                } else {
                    lemma_choice_fail(reference_date, q, kept);
                }
            },
        }
    }
}

/// The positions as integers.
pub open spec fn positions(s: Seq<usize>) -> Seq<int> {
    s.map_values(|i: usize| i as int)
}

/// Once the selection of a prefix fails, the selection of the whole fails the same way.
proof fn lemma_selection_stops(reference_date: Date, quotes: Seq<(QuoteInstrument, Date)>, k: int)
    requires
        0 <= k <= quotes.len(),
        pillar_selection(reference_date, quotes.take(k)) is Err,
    ensures
        pillar_selection(reference_date, quotes) == pillar_selection(reference_date, quotes.take(k)),
    decreases quotes.len() - k,
{
    if k < quotes.len() {
        assert(quotes.take(k + 1).drop_last() =~= quotes.take(k));
        lemma_selection_stops(reference_date, quotes, k + 1);
    } else {
        assert(quotes.take(k) =~= quotes);
    }
}

/// Whether one of the kept quotes matures on `m`.
fn taken(quotes: &Vec<(QuoteInstrument, Date)>, kept: &Vec<usize>, m: Date) -> (r: bool)
    requires
        forall|j: int| 0 <= j < kept@.len() ==> (#[trigger] kept@[j]) < quotes@.len(),
    ensures
        r == exists|j: int| 0 <= j < kept@.len() && quotes@[#[trigger] kept@[j] as int].1 == m,
{
    let mut j: usize = 0;
    while j < kept.len()
        invariant
            j <= kept@.len(),
            forall|a: int| 0 <= a < kept@.len() ==> (#[trigger] kept@[a]) < quotes@.len(),
            forall|a: int| 0 <= a < j ==> quotes@[#[trigger] kept@[a] as int].1 != m,
        decreases kept@.len() - j,
    {
        if quotes[kept[j]].1 == m {
            return true;
        }
        j = j + 1;
    }
    false
}

/// The positions of the quotes `(instrument, maturity)` that give the curve's
/// pillars: those maturing after the reference date on a maturity not taken
/// by an earlier pillar; an error at the first such quote that is neither a
/// deposit nor an OIS swap.
pub fn select_pillars(reference_date: Date, quotes: Vec<(QuoteInstrument, Date)>) -> (r: Result<Vec<usize>, QSError>)
    ensures
        pillar_selection(reference_date, quotes@) matches Err(e) ==> r == Err::<Vec<usize>, QSError>(e),
        pillar_selection(reference_date, quotes@) matches Ok(k) ==> (r matches Ok(v) && positions(v@) == k),
        r matches Ok(v) ==> forall|j: int| 0 <= j < v@.len() ==> {
            &&& (#[trigger] v@[j]) < quotes@.len()
            &&& !date_le(quotes@[v@[j] as int].1, reference_date)
            &&& bootstrappable(quotes@[v@[j] as int].0)
        },
        r matches Ok(v) ==> forall|j: int, k: int| 0 <= j < k < v@.len() ==> (#[trigger] v@[j]) < (#[trigger] v@[k])
            && quotes@[v@[j] as int].1 != quotes@[v@[k] as int].1,
{
    let ghost q = quotes@;
    let n = quotes.len();
    let mut kept: Vec<usize> = Vec::new();
    let mut i: usize = 0;
    proof {
        assert(q.take(0) =~= Seq::<(QuoteInstrument, Date)>::empty());
        assert(positions(kept@) =~= Seq::<int>::empty());
    }
    while i < n
        invariant
            q == quotes@,
            n == q.len(),
            i <= n,
            pillar_selection(reference_date, q.take(i as int)) == Ok::<Seq<int>, QSError>(positions(kept@)),
            forall|j: int| 0 <= j < kept@.len() ==> {
                &&& (#[trigger] kept@[j]) < i
                &&& !date_le(q[kept@[j] as int].1, reference_date)
                &&& bootstrappable(q[kept@[j] as int].0)
            },
            forall|j: int, k: int| 0 <= j < k < kept@.len() ==> (#[trigger] kept@[j]) < (#[trigger] kept@[k])
                && q[kept@[j] as int].1 != q[kept@[k] as int].1,
        decreases n - i,
    {
        let (ins, m) = quotes[i];
        let ghost pre = q.take(i + 1);
        proof {
            assert(pre.drop_last() =~= q.take(i as int));
            assert(pre.last() == q[i as int]);
            assert forall|j: int| 0 <= j < kept@.len() implies #[trigger] pre[positions(kept@)[j]] == q[kept@[j] as int] by {}
        }
        let skip = m.le(&reference_date) || taken(&quotes, &kept, m);
        proof {
            let e1 = exists|j: int| 0 <= j < positions(kept@).len() && pre[#[trigger] positions(kept@)[j]].1 == m;
            let e2 = exists|j: int| 0 <= j < kept@.len() && q[#[trigger] kept@[j] as int].1 == m;
            if e1 {
                let j = choose|j: int| 0 <= j < positions(kept@).len() && pre[#[trigger] positions(kept@)[j]].1 == m;
                assert(q[kept@[j] as int].1 == m);
            }
            if e2 {
                let j = choose|j: int| 0 <= j < kept@.len() && q[#[trigger] kept@[j] as int].1 == m;
                assert(pre[positions(kept@)[j]].1 == m);
            }
        }
        if !skip {
            if ins == QuoteInstrument::FixedRateDeposit || ins == QuoteInstrument::OIS {
                let ghost before = kept@;
                kept.push(i);
                proof {
                    assert(positions(kept@) =~= positions(before).push(i as int));
                }
            } else {
                proof {
                    lemma_selection_stops(reference_date, q, i + 1);
                }
                return Err(QSError::UnsupportedBootstrapQuote);
            }
        }
        i = i + 1;
    }
    proof {
        assert(q.take(n as int) =~= q);
    }
    Ok(kept)
}

/// What defines one interest-rate curve: its index, the identifiers of the
/// quotes that calibrate it (all quotes of the index when empty), how it
/// interpolates, and the curves it depends on (the first one discounts).
pub struct InterestRateCurvePreset {
    pub market_index: MarketIndex,
    pub interpolator: Interpolator,
    pub enable_extrapolation: bool,
    pub instruments: Vec<String>,
    pub dependencies: Vec<MarketIndex>,
}

/// Bootstraps an interest-rate curve from deposit and swap quotes.
pub struct InterestRateCurveBootstrapper {
    pub preset: InterestRateCurvePreset,
}

impl InterestRateCurveBootstrapper {
    /// Creates a bootstrapper using the supplied preset.
    pub fn new(preset: InterestRateCurvePreset) -> (r: InterestRateCurveBootstrapper)
        ensures
            r.preset == preset,
    {
        InterestRateCurveBootstrapper { preset }
    }
}

} // verus!
