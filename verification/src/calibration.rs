//! Calibration instruments: a quote turned into an instrument with a known
//! pillar date, and the pillar ordering of a curve's instruments.
use vstd::prelude::*;

use crate::instruments::BuiltInstrument;
use crate::quote::{Level, Quote};
use crate::time::{date_le, Date};

verus! {

/// A quote that has been turned into a concrete instrument with a known
/// pillar date and quote value. `T` is the numeric type of quote values.
#[derive(Clone, Debug)]
pub struct CalibrationInstrument<T> {
    pub quote: Quote<T>,
    pub level: Level,
    pub built: BuiltInstrument<T>,
    pub quote_value: T,
    pub pillar_date: Date,
}

impl<T: Copy> CalibrationInstrument<T> {
    /// Creates a calibration instrument.
    pub fn new(quote: Quote<T>, level: Level, built: BuiltInstrument<T>, quote_value: T, pillar_date: Date) -> (r: CalibrationInstrument<T>)
        ensures
            r == (CalibrationInstrument { quote, level, built, quote_value, pillar_date }),
    {
        CalibrationInstrument { quote, level, built, quote_value, pillar_date }
    }

    /// Returns the source quote.
    pub fn quote(&self) -> (r: &Quote<T>)
        ensures
            *r == self.quote,
    {
        &self.quote
    }

    /// Returns the quote level.
    pub fn level(&self) -> (r: Level)
        ensures
            r == self.level,
    {
        self.level
    }

    /// Returns the built instrument.
    pub fn built(&self) -> (r: &BuiltInstrument<T>)
        ensures
            *r == self.built,
    {
        &self.built
    }

    /// Returns the market input value.
    pub fn quote_value(&self) -> (r: T)
        ensures
            r == self.quote_value,
    {
        self.quote_value
    }

    /// Returns the pillar date.
    pub fn pillar_date(&self) -> (r: Date)
        ensures
            r == self.pillar_date,
    {
        self.pillar_date
    }

    /// Returns the reporting label of the pillar: the quote identifier.
    pub fn pillar_label(&self) -> (r: String)
        ensures
            r@ == self.quote.details.identifier@,
    {
        self.quote.details.identifier()
    }
}

/// The instruments are in pillar-date order.
pub open spec fn pillar_sorted<T>(s: Seq<CalibrationInstrument<T>>) -> bool {
    forall|i: int, j: int| 0 <= i < j < s.len() ==> date_le(#[trigger] s[i].pillar_date, #[trigger] s[j].pillar_date)
}

/// `p` maps each position of `res` to a distinct position of `input` holding the
/// same instrument, and instruments with equal pillar dates keep their relative order.
pub open spec fn stable_witness<T>(res: Seq<CalibrationInstrument<T>>, input: Seq<CalibrationInstrument<T>>, p: Seq<int>) -> bool {
    &&& p.len() == res.len()
    &&& forall|k: int| 0 <= k < p.len() ==> 0 <= #[trigger] p[k] < input.len() && res[k] == input[p[k]]
    &&& forall|k: int, l: int| 0 <= k < l < p.len() ==> #[trigger] p[k] != #[trigger] p[l]
    &&& forall|k: int, l: int|
        0 <= k < l < p.len() && (#[trigger] res[k]).pillar_date == (#[trigger] res[l]).pillar_date ==> p[k] < p[l]
}

/// `res` is `input` stably sorted by pillar date.
pub open spec fn is_stable_pillar_sort<T>(res: Seq<CalibrationInstrument<T>>, input: Seq<CalibrationInstrument<T>>) -> bool {
    &&& res.len() == input.len()
    &&& pillar_sorted(res)
    &&& exists|p: Seq<int>| stable_witness(res, input, p)
}

/// Sorts instruments by pillar date, keeping the given order among equal dates.
pub fn sort_by_pillar_date<T: Copy>(input: Vec<CalibrationInstrument<T>>) -> (r: Vec<CalibrationInstrument<T>>)
    ensures
        is_stable_pillar_sort(r@, input@),
{
    let ghost orig = input@;
    let mut rest = input;
    let mut out: Vec<CalibrationInstrument<T>> = Vec::new();
    let ghost mut p: Seq<int> = Seq::empty();
    let n = rest.len();
    let mut i: usize = 0;
    while i < n
        invariant
            n == orig.len(),
            i <= n,
            rest@ == orig.subrange(i as int, n as int),
            out@.len() == i,
            pillar_sorted(out@),
            p.len() == i,
            forall|k: int| 0 <= k < i ==> 0 <= #[trigger] p[k] < i && out@[k] == orig[p[k]],
            forall|k: int, l: int| 0 <= k < l < i ==> #[trigger] p[k] != #[trigger] p[l],
            forall|k: int, l: int|
                0 <= k < l < i && (#[trigger] out@[k]).pillar_date == (#[trigger] out@[l]).pillar_date ==> p[k] < p[l],
        decreases n - i,
    {
        let x = rest.remove(0);
        assert(x == orig[i as int]);
        let d = x.pillar_date;
        let mut k: usize = 0;
        while k < out.len() && out[k].pillar_date.le(&d)
            invariant
                k <= out@.len(),
                forall|j: int| 0 <= j < k ==> date_le(#[trigger] out@[j].pillar_date, d),
            decreases out@.len() - k,
        {
            k = k + 1;
        }
        let ghost old_out = out@;
        let ghost old_p = p;
        out.insert(k, x);
        proof {
            p = p.insert(k as int, i as int);
            assert forall|a: int, b: int| 0 <= a < b < out@.len() implies date_le(
                #[trigger] out@[a].pillar_date,
                #[trigger] out@[b].pillar_date,
            ) by {
                if b < k {
                    assert(out@[a] == old_out[a] && out@[b] == old_out[b]);
                } else if b == k {
                    assert(out@[a] == old_out[a]);
                } else if a == k {
                    assert(out@[b] == old_out[b - 1]);
                    assert(!date_le(old_out[k as int].pillar_date, d));
                    if b - 1 > k {
                        assert(date_le(old_out[k as int].pillar_date, old_out[b - 1].pillar_date));
                    }
                } else if a < k {
                    assert(out@[a] == old_out[a]);
                    assert(out@[b] == old_out[b - 1]);
                    if a < b - 1 {
                        assert(date_le(old_out[a].pillar_date, old_out[b - 1].pillar_date));
                    }
                } else {
                    assert(out@[a] == old_out[a - 1]);
                    assert(out@[b] == old_out[b - 1]);
                    assert(date_le(old_out[a - 1].pillar_date, old_out[b - 1].pillar_date));
                }
            }
            assert forall|m: int| 0 <= m < i + 1 implies 0 <= #[trigger] p[m] < i + 1 && out@[m] == orig[p[m]] by {
                if m < k {
                    assert(p[m] == old_p[m]);
                } else if m > k {
                    assert(p[m] == old_p[m - 1]);
                }
            }
            assert forall|a: int, b: int| 0 <= a < b < i + 1 implies #[trigger] p[a] != #[trigger] p[b] by {
                if a < k && b < k {
                } else if a < k && b == k {
                    assert(old_p[a] < i);
                } else if a < k {
                    assert(p[b] == old_p[b - 1]);
                } else if a == k {
                    assert(p[b] == old_p[b - 1] && old_p[b - 1] < i);
                } else {
                    assert(p[a] == old_p[a - 1] && p[b] == old_p[b - 1]);
                }
            }
            assert forall|a: int, b: int|
                0 <= a < b < i + 1 && (#[trigger] out@[a]).pillar_date == (#[trigger] out@[b]).pillar_date implies p[a] < p[b] by {
                if b < k {
                    assert(out@[a] == old_out[a] && out@[b] == old_out[b]);
                } else if b == k {
                    assert(old_p[a] < i);
                } else if a == k {
                    assert(out@[b] == old_out[b - 1]);
                    assert(!date_le(old_out[k as int].pillar_date, d));
                    if b - 1 > k {
                        assert(date_le(old_out[k as int].pillar_date, old_out[b - 1].pillar_date));
                    }
                } else if a < k {
                    assert(out@[a] == old_out[a]);
                    assert(out@[b] == old_out[b - 1]);
                    assert(p[a] == old_p[a] && p[b] == old_p[b - 1]);
                } else {
                    assert(out@[a] == old_out[a - 1]);
                    assert(out@[b] == old_out[b - 1]);
                    assert(p[a] == old_p[a - 1] && p[b] == old_p[b - 1]);
                }
            }
            assert(rest@ =~= orig.subrange(i + 1, n as int));
        }
        i = i + 1;
    }
    proof {
        assert(stable_witness(out@, orig, p));
    }
    out
}

} // verus!
