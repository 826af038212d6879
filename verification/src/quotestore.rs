//! A store of market quotes indexed by identifier.
use vstd::prelude::*;

use crate::quote::Quote;
use crate::text::str_equals;
use crate::time::Date;

verus! {

/// The identifier of a quote.
pub open spec fn quote_id<T>(q: Quote<T>) -> Seq<char> {
    q.details.identifier@
}

/// The quotes of `s` by identifier; a later quote replaces an earlier one
/// with the same identifier.
pub open spec fn quote_map<T>(s: Seq<Quote<T>>) -> Map<Seq<char>, Quote<T>>
    decreases s.len(),
{
    if s.len() == 0 {
        Map::empty()
    } else {
        quote_map(s.drop_last()).insert(quote_id(s.last()), s.last())
    }
}

/// No identifier occurs twice.
pub open spec fn ids_distinct<T>(s: Seq<Quote<T>>) -> bool {
    forall|i: int, j: int| 0 <= i < j < s.len() ==> quote_id(#[trigger] s[i]) != quote_id(#[trigger] s[j])
}

/// With distinct identifiers, the map holds exactly the identifiers of `s`,
/// each with its quote.
proof fn lemma_quote_map<T>(s: Seq<Quote<T>>)
    requires
        ids_distinct(s),
    ensures
        forall|k: Seq<char>| #[trigger] quote_map(s).contains_key(k) <==> exists|i: int| 0 <= i < s.len() && quote_id(s[i]) == k,
        forall|i: int| 0 <= i < s.len() ==> #[trigger] quote_map(s)[quote_id(s[i])] == s[i],
    decreases s.len(),
{
    if s.len() > 0 {
        let p = s.drop_last();
        assert forall|a: int, b: int| 0 <= a < b < p.len() implies quote_id(#[trigger] p[a]) != quote_id(#[trigger] p[b]) by {
            assert(p[a] == s[a] && p[b] == s[b]);
        }
        lemma_quote_map(p);
        assert forall|k: Seq<char>| #[trigger] quote_map(s).contains_key(k) <==> exists|i: int| 0 <= i < s.len() && quote_id(s[i]) == k by {
            if quote_map(s).contains_key(k) && k != quote_id(s.last()) {
                assert(quote_map(s) == quote_map(p).insert(quote_id(s.last()), s.last()));
                assert(quote_map(p).contains_key(k));
                let i = choose|i: int| 0 <= i < p.len() && quote_id(p[i]) == k;
                assert(s[i] == p[i]);
            }
            if exists|i: int| 0 <= i < s.len() && quote_id(s[i]) == k {
                let i = choose|i: int| 0 <= i < s.len() && quote_id(s[i]) == k;
                if i < p.len() {
                    assert(s[i] == p[i]);
                    assert(quote_map(p).contains_key(k));
                }
            }
        }
        assert forall|i: int| 0 <= i < s.len() implies #[trigger] quote_map(s)[quote_id(s[i])] == s[i] by {
            assert(quote_map(s) == quote_map(p).insert(quote_id(s.last()), s.last()));
            if i < p.len() {
                assert(s[i] == p[i]);
                assert(quote_id(s[i]) != quote_id(s[s.len() - 1]));
                assert(quote_map(p)[quote_id(p[i])] == p[i]);
            }
        }
    }
}

/// Replacing the quote at `i` by one with the same identifier replaces it in the map.
proof fn lemma_quote_map_update<T>(s: Seq<Quote<T>>, i: int, q: Quote<T>)
    requires
        0 <= i < s.len(),
        quote_id(s[i]) == quote_id(q),
        ids_distinct(s),
    ensures
        quote_map(s.update(i, q)) == quote_map(s).insert(quote_id(q), q),
    decreases s.len(),
{
    let u = s.update(i, q);
    if i == s.len() - 1 {
        assert(u.drop_last() =~= s.drop_last());
        assert(quote_map(u) =~= quote_map(s).insert(quote_id(q), q));
    } else {
        let p = s.drop_last();
        assert(u.drop_last() =~= p.update(i, q));
        lemma_quote_map_update(p, i, q);
        assert(quote_id(s[i]) != quote_id(s.last()));
        assert(quote_map(u) =~= quote_map(s).insert(quote_id(q), q));
    }
}

/// The value of a [`QuoteStore`].
pub struct QuoteStoreView<T> {
    pub reference_date: Date,
    pub quotes: Map<Seq<char>, Quote<T>>,
}

/// Market quotes indexed by identifier, with the reference date they were
/// captured for.
#[derive(Debug)]
pub struct QuoteStore<T> {
    reference_date: Date,
    quotes: Vec<Quote<T>>,
}

impl<T> View for QuoteStore<T> {
    type V = QuoteStoreView<T>;

    closed spec fn view(&self) -> QuoteStoreView<T> {
        QuoteStoreView { reference_date: self.reference_date, quotes: quote_map(self.quotes@) }
    }
}

impl<T> QuoteStore<T> {
    #[verifier::type_invariant]
    closed spec fn inv(&self) -> bool {
        ids_distinct(self.quotes@)
    }
}

impl<T: Copy> QuoteStore<T> {
    /// An empty store for `reference_date`.
    pub fn new(reference_date: Date) -> (r: QuoteStore<T>)
        ensures
            r@.reference_date == reference_date,
            r@.quotes == Map::<Seq<char>, Quote<T>>::empty(),
    {
        QuoteStore { reference_date, quotes: Vec::new() }
    }

    /// The reference date of the store.
    pub fn reference_date(&self) -> (r: Date)
        ensures
            r == self@.reference_date,
    {
        self.reference_date
    }

    /// Position of the quote with identifier `id`, if any.
    fn position(&self, id: &str) -> (r: Option<usize>)
        ensures
            r matches Some(i) ==> i < self.quotes@.len() && quote_id(self.quotes@[i as int]) == id@,
            r is None ==> forall|j: int| 0 <= j < self.quotes@.len() ==> quote_id(#[trigger] self.quotes@[j]) != id@,
    {
        let n = self.quotes.len();
        let mut i: usize = 0;
        while i < n
            invariant
                n == self.quotes@.len(),
                i <= n,
                forall|j: int| 0 <= j < i ==> quote_id(#[trigger] self.quotes@[j]) != id@,
            decreases n - i,
        {
            if str_equals(self.quotes[i].details.identifier.as_str(), id) {
                return Some(i);
            }
            i = i + 1;
        }
        None
    }

    /// Adds a quote under its identifier, replacing the quote stored under
    /// that identifier if there is one.
    pub fn add_quote(&mut self, quote: Quote<T>)
        ensures
            final(self)@.reference_date == old(self)@.reference_date,
            final(self)@.quotes == old(self)@.quotes.insert(quote.details.identifier@, quote),
    {
        proof { use_type_invariant(&*self); }
        let ghost before = self.quotes@;
        let pos = self.position(quote.details.identifier.as_str());
        match pos {
            Some(i) => {
                proof { lemma_quote_map_update(before, i as int, quote); }
                let mut quotes: Vec<Quote<T>> = Vec::new();
                std::mem::swap(&mut quotes, &mut self.quotes);
                quotes.set(i, quote);
                proof {
                    assert forall|a: int, b: int| 0 <= a < b < quotes@.len() implies quote_id(#[trigger] quotes@[a]) != quote_id(#[trigger] quotes@[b]) by {
                        assert(quote_id(quotes@[a]) == quote_id(before[a]));
                        assert(quote_id(quotes@[b]) == quote_id(before[b]));
                    }
                }
                self.quotes = quotes;
            },
            None => {
                let mut quotes: Vec<Quote<T>> = Vec::new();
                std::mem::swap(&mut quotes, &mut self.quotes);
                quotes.push(quote);
                proof {
                    assert(quotes@.drop_last() =~= before);
                    assert forall|a: int, b: int| 0 <= a < b < quotes@.len() implies quote_id(#[trigger] quotes@[a]) != quote_id(#[trigger] quotes@[b]) by {
                        assert(quotes@[a] == before[a]);
                        if b < before.len() {
                            assert(quotes@[b] == before[b]);
                        }
                    }
                }
                self.quotes = quotes;
            },
        }
    }

    /// The quote stored under `identifier`, if any.
    pub fn quote(&self, identifier: &str) -> (r: Option<&Quote<T>>)
        ensures
            self@.quotes.contains_key(identifier@) ==> r == Some(&self@.quotes[identifier@]),
            !self@.quotes.contains_key(identifier@) ==> r is None,
    {
        proof {
            use_type_invariant(self);
            lemma_quote_map(self.quotes@);
        }
        match self.position(identifier) {
            Some(i) => Some(&self.quotes[i]),
            None => None,
        }
    }

    /// All stored quotes, each under its own identifier.
    pub fn quotes(&self) -> (r: &Vec<Quote<T>>)
        ensures
            quote_map(r@) == self@.quotes,
            forall|i: int| 0 <= i < r@.len() ==> #[trigger] self@.quotes[quote_id(r@[i])] == r@[i],
            forall|k: Seq<char>| #[trigger] self@.quotes.contains_key(k) <==> exists|i: int| 0 <= i < r@.len() && quote_id(r@[i]) == k,
    {
        proof {
            use_type_invariant(self);
            lemma_quote_map(self.quotes@);
        }
        &self.quotes
    }
}

/// Reading back the identifier just written gives the quote written, and
/// every other identifier keeps its quote.
pub proof fn lemma_add_then_quote<T>(before: QuoteStoreView<T>, after: QuoteStoreView<T>, q: Quote<T>, other: Seq<char>)
    requires
        after.quotes == before.quotes.insert(q.details.identifier@, q),
    ensures
        after.quotes.contains_key(q.details.identifier@),
        after.quotes[q.details.identifier@] == q,
        other != q.details.identifier@ ==> (after.quotes.contains_key(other) == before.quotes.contains_key(other)
            && after.quotes[other] == before.quotes[other]),
{
}

} // verus!
