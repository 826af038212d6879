//! Selection of market quotes by identifier.
use vstd::prelude::*;

use crate::curveconfiguration::{quote_ids, Selected};
use crate::errors::QSError;
use crate::instruments::BuiltInstrument;
use crate::quote::{level_value, Level, Quote};
use crate::quotestore::QuoteStore;
use crate::time::Date;

verus! {

/// Selects market quotes by identifier.
pub trait QuoteSelector<T> {
    /// The quote the selector holds under `identifier`, if any.
    spec fn spec_select(&self, identifier: Seq<char>) -> Option<Quote<T>>;

    /// The reference (valuation) date of the selector.
    spec fn spec_reference_date(&self) -> Date;

    /// Returns the quote with the given identifier.
    fn select(&self, identifier: &str) -> (r: Option<Quote<T>>)
        ensures
            r == self.spec_select(identifier@),
    ;

    /// Returns the reference (valuation) date used for building instruments.
    fn reference_date(&self) -> (r: Date)
        ensures
            r == self.spec_reference_date(),
    ;
}

impl<T: Copy> QuoteSelector<T> for QuoteStore<T> {
    open spec fn spec_select(&self, identifier: Seq<char>) -> Option<Quote<T>> {
        if self@.quotes.contains_key(identifier) {
            Some(self@.quotes[identifier])
        } else {
            None
        }
    }

    open spec fn spec_reference_date(&self) -> Date {
        self@.reference_date
    }

    fn select(&self, identifier: &str) -> (r: Option<Quote<T>>) {
        match self.quote(identifier) {
            Some(q) => Some(q.duplicate()),
            None => None,
        }
    }

    fn reference_date(&self) -> (r: Date) {
        QuoteStore::reference_date(self)
    }
}

/// The entry holds a selected quote together with its built instrument.
pub open spec fn selected_ok<T>(e: Selected<T>) -> bool {
    e matches Some(Ok(_))
}

/// `e` is what selection records for an identifier under which the selector
/// holds `found`: nothing where it holds no quote; the missing-level error
/// where the quote has no value at `level`; otherwise the quote with the
/// instrument that `build` makes of it at the date `d`, with `level` and
/// `fx_spot`, or the error `build` gives.
pub open spec fn entry_from<T, F: Fn(&Quote<T>, Date, Level, Option<T>) -> Result<BuiltInstrument<T>, QSError>>(
    e: Selected<T>,
    found: Option<Quote<T>>,
    d: Date,
    level: Level,
    fx_spot: Option<T>,
    build: &F,
) -> bool {
    match found {
        None => e is None,
        Some(q) => if level_value(q.levels.mid, q.levels.bid, q.levels.ask, level) is None {
            e == Some(Err::<(Quote<T>, BuiltInstrument<T>), QSError>(QSError::MissingQuoteLevel(level)))
        } else {
            match e {
                Some(Ok((q2, b))) => q2 == q && build.ensures((&q, d, level, fx_spot), Ok::<BuiltInstrument<T>, QSError>(b)),
                Some(Err(x)) => build.ensures((&q, d, level, fx_spot), Err::<BuiltInstrument<T>, QSError>(x)),
                None => false,
            }
        },
    }
}

/// `entries` is what selection records for `identifiers` through `selector`:
/// one entry per identifier; each entry up to the first one that is not a
/// built quote comes from the selector's quote under its identifier, built at
/// the selector's reference date (see [`entry_from`]); every entry after it
/// is `None`.
pub open spec fn selected_through<T, S: QuoteSelector<T>, F: Fn(&Quote<T>, Date, Level, Option<T>) -> Result<BuiltInstrument<T>, QSError>>(
    entries: Seq<Selected<T>>,
    identifiers: Seq<Seq<char>>,
    selector: &S,
    level: Level,
    fx_spot: Option<T>,
    build: &F,
) -> bool {
    &&& entries.len() == identifiers.len()
    &&& forall|i: int, j: int| 0 <= i < j < entries.len() && !selected_ok(#[trigger] entries[i]) ==> (#[trigger] entries[j]) is None
    &&& forall|j: int| 0 <= j < entries.len() && (forall|i: int| 0 <= i < j ==> selected_ok(#[trigger] entries[i]))
        ==> entry_from(#[trigger] entries[j], selector.spec_select(identifiers[j]), selector.spec_reference_date(), level, fx_spot, build)
}

/// What selection records, up to its first failure: nothing where the
/// selector holds no quote; the missing-level error, without building, where
/// the quote has no value at the level; otherwise a built entry holds the
/// selector's own quote, and a failed one the builder's error for it at the
/// selector's reference date.
pub proof fn lemma_selection_entries<T, S: QuoteSelector<T>, F: Fn(&Quote<T>, Date, Level, Option<T>) -> Result<BuiltInstrument<T>, QSError>>(
    entries: Seq<Selected<T>>,
    identifiers: Seq<Seq<char>>,
    selector: &S,
    level: Level,
    fx_spot: Option<T>,
    build: &F,
    j: int,
)
    requires
        selected_through(entries, identifiers, selector, level, fx_spot, build),
        0 <= j < entries.len(),
        forall|i: int| 0 <= i < j ==> selected_ok(#[trigger] entries[i]),
    ensures
        entries.len() == identifiers.len(),
        selector.spec_select(identifiers[j]) is None ==> entries[j] is None,
        selector.spec_select(identifiers[j]) matches Some(q) ==> {
            &&& level_value(q.levels.mid, q.levels.bid, q.levels.ask, level) is None
                ==> entries[j] == Some(Err::<(Quote<T>, BuiltInstrument<T>), QSError>(QSError::MissingQuoteLevel(level)))
            &&& level_value(q.levels.mid, q.levels.bid, q.levels.ask, level) is Some ==> entries[j] is Some
            &&& entries[j] matches Some(Ok((q2, b))) ==> q2 == q
                && build.ensures((&q, selector.spec_reference_date(), level, fx_spot), Ok::<BuiltInstrument<T>, QSError>(b))
        },
        !selected_ok(entries[j]) ==> forall|k: int| j < k < entries.len() ==> (#[trigger] entries[k]) is None,
{
    assert(entry_from(entries[j], selector.spec_select(identifiers[j]), selector.spec_reference_date(), level, fx_spot, build));
}

/// For each identifier, in order, the quote the selector returns and the
/// instrument `build` makes of it at the selector's reference date, or why
/// there is none: `None` where no quote is found, the missing-level error
/// where the quote has no value at `level` (checked before building), or the
/// builder's error. Selection stops at the first entry that is not a built
/// quote; the identifiers after it are left unselected (`None`).
pub fn select_quotes<T: Copy, S: QuoteSelector<T>, F: Fn(&Quote<T>, Date, Level, Option<T>) -> Result<BuiltInstrument<T>, QSError>>(
    identifiers: &Vec<String>,
    selector: &S,
    level: Level,
    fx_spot: Option<T>,
    build: &F,
) -> (r: Vec<Selected<T>>)
    requires
        forall|q: Quote<T>, d: Date| #[trigger] build.requires((&q, d, level, fx_spot)),
    ensures
        selected_through(r@, quote_ids(identifiers@), selector, level, fx_spot, build),
{
    let ghost ids = quote_ids(identifiers@);
    let mut out: Vec<Selected<T>> = Vec::new();
    let mut failed = false;
    let n = identifiers.len();
    let mut i: usize = 0;
    while i < n
        invariant
            n == identifiers@.len(),
            ids == quote_ids(identifiers@),
            ids.len() == n,
            i <= n,
            out@.len() == i,
            forall|q: Quote<T>, d: Date| #[trigger] build.requires((&q, d, level, fx_spot)),
            failed <==> exists|a: int| 0 <= a < i && !selected_ok(#[trigger] out@[a]),
            forall|a: int, b: int| 0 <= a < b < out@.len() && !selected_ok(#[trigger] out@[a]) ==> (#[trigger] out@[b]) is None,
            forall|j: int| 0 <= j < out@.len() && (forall|a: int| 0 <= a < j ==> selected_ok(#[trigger] out@[a]))
                ==> entry_from(#[trigger] out@[j], selector.spec_select(ids[j]), selector.spec_reference_date(), level, fx_spot, build),
        decreases n - i,
    {
        proof {
            assert(ids[i as int] == identifiers@[i as int]@);
        }
        let entry: Selected<T> = if failed {
            None
        } else {
            match selector.select(identifiers[i].as_str()) {
                None => None,
                Some(quote) => match quote.levels.value(level) {
                    Err(e) => Some(Err(e)),
                    Ok(_) => {
                        let d = selector.reference_date();
                        match build(&quote, d, level, fx_spot) {
                            Ok(b) => Some(Ok((quote, b))),
                            Err(e) => Some(Err(e)),
                        }
                    },
                },
            }
        };
        let ghost before = out@;
        let ok = match &entry {
            Some(Ok(_)) => true,
            _ => false,
        };
        out.push(entry);
        proof {
            assert(out@.drop_last() == before);
            assert forall|a: int| 0 <= a < i implies out@[a] == before[a] by {}
            if failed {
                let w = choose|a: int| 0 <= a < i && !selected_ok(#[trigger] before[a]);
                assert(!selected_ok(out@[w]));
            }
            if !ok {
                assert(!selected_ok(out@[i as int]));
            }
        }
        if !ok {
            failed = true;
        }
        i = i + 1;
    }
    out
}

} // verus!
