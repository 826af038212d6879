//! Market indices: the rate indices, collateral curves and other
//! underlyings that curves and legs refer to.
use vstd::prelude::*;
use vstd::string::*;

use crate::currency::{currency_code, currency_from_code, lemma_currency_code_len, lemma_currency_code_roundtrip, Currency};
use crate::errors::QSError;
use crate::text::{starts_with, str_equals};

verus! {

/// A market index. `Collateral(ccy, csa)` is the curve that discounts
/// cashflows in `ccy` collateralised in `csa`.
#[derive(Clone, Debug, Eq, Hash)]
pub enum MarketIndex {
    SOFR,
    TermSOFR3m,
    TermSOFR6m,
    ESTR,
    EURIBOR1m,
    ICP,
    Collateral(Currency, Currency),
    Equity(String),
    Other(String),
}

/// The mathematical value of a [`MarketIndex`]: names are taken by their characters.
pub enum IndexKey {
    SOFR,
    TermSOFR3m,
    TermSOFR6m,
    ESTR,
    EURIBOR1m,
    ICP,
    Collateral(Currency, Currency),
    Equity(Seq<char>),
    Other(Seq<char>),
}

impl View for MarketIndex {
    type V = IndexKey;

    open spec fn view(&self) -> IndexKey {
        match self {
            MarketIndex::SOFR => IndexKey::SOFR,
            MarketIndex::TermSOFR3m => IndexKey::TermSOFR3m,
            MarketIndex::TermSOFR6m => IndexKey::TermSOFR6m,
            MarketIndex::ESTR => IndexKey::ESTR,
            MarketIndex::EURIBOR1m => IndexKey::EURIBOR1m,
            MarketIndex::ICP => IndexKey::ICP,
            MarketIndex::Collateral(a, b) => IndexKey::Collateral(*a, *b),
            MarketIndex::Equity(s) => IndexKey::Equity(s@),
            MarketIndex::Other(s) => IndexKey::Other(s@),
        }
    }
}

impl PartialEq for MarketIndex {
    fn eq(&self, other: &Self) -> (r: bool) {
        self.same_as(other)
    }
}

impl vstd::std_specs::cmp::PartialEqSpecImpl for MarketIndex {
    open spec fn obeys_eq_spec() -> bool {
        true
    }

    open spec fn eq_spec(&self, other: &Self) -> bool {
        self@ == other@
    }
}

/// The textual form of an index, as written by [`MarketIndex::to_string`].
pub open spec fn index_text(k: IndexKey) -> Seq<char> {
    match k {
        IndexKey::SOFR => "SOFR"@,
        IndexKey::TermSOFR3m => "TermSOFR3m"@,
        IndexKey::TermSOFR6m => "TermSOFR6m"@,
        IndexKey::ESTR => "ESTR"@,
        IndexKey::EURIBOR1m => "EURIBOR1m"@,
        IndexKey::ICP => "ICP"@,
        IndexKey::Collateral(a, b) => "Collateral("@ + currency_code(a) + "/"@ + currency_code(b) + ")"@,
        IndexKey::Equity(s) => "Equity("@ + s + ")"@,
        IndexKey::Other(s) => "Other("@ + s + ")"@,
    }
}

/// The collateral index written as `s`, when `s` has the form `Collateral(XXX/YYY)`.
pub open spec fn parse_collateral_text(s: Seq<char>) -> Option<IndexKey> {
    if s.len() == 19 && s.subrange(0, 11) == "Collateral("@ && s[14] == '/' && s[18] == ')' {
        match (currency_from_code(s.subrange(11, 14)), currency_from_code(s.subrange(15, 18))) {
            (Some(a), Some(b)) => Some(IndexKey::Collateral(a, b)),
            _ => None,
        }
    } else {
        None
    }
}

/// The index written as `s`, if `s` is the textual form of an index.
pub open spec fn parse_index_text(s: Seq<char>) -> Option<IndexKey> {
    if s == "SOFR"@ {
        Some(IndexKey::SOFR)
    } else if s == "TermSOFR3m"@ {
        Some(IndexKey::TermSOFR3m)
    } else if s == "TermSOFR6m"@ {
        Some(IndexKey::TermSOFR6m)
    } else if s == "ESTR"@ {
        Some(IndexKey::ESTR)
    } else if s == "EURIBOR1m"@ {
        Some(IndexKey::EURIBOR1m)
    } else if s == "ICP"@ {
        Some(IndexKey::ICP)
    } else if parse_collateral_text(s) is Some {
        parse_collateral_text(s)
    } else if s.len() >= 8 && s.subrange(0, 7) == "Equity("@ && s[s.len() - 1] == ')' {
        Some(IndexKey::Equity(s.subrange(7, s.len() - 1)))
    } else if s.len() >= 7 && s.subrange(0, 6) == "Other("@ && s[s.len() - 1] == ')' {
        Some(IndexKey::Other(s.subrange(6, s.len() - 1)))
    } else if is_ticker(s) {
        Some(IndexKey::Equity(s))
    } else {
        None
    }
}

/// `c` is an ASCII letter or digit.
pub open spec fn is_ticker_char(c: char) -> bool {
    ('A' <= c <= 'Z') || ('a' <= c <= 'z') || ('0' <= c <= '9')
}

/// `s` is an equity ticker written by its bare name, e.g. `SPX`: one or more
/// ASCII letters and digits.
pub open spec fn is_ticker(s: Seq<char>) -> bool {
    s.len() > 0 && forall|i: int| 0 <= i < s.len() ==> is_ticker_char(#[trigger] s[i])
}

/// The character contents of the fixed parts of the textual forms.
pub proof fn reveal_index_names()
    ensures
        "SOFR"@ == seq!['S', 'O', 'F', 'R'],
        "TermSOFR3m"@ == seq!['T', 'e', 'r', 'm', 'S', 'O', 'F', 'R', '3', 'm'],
        "TermSOFR6m"@ == seq!['T', 'e', 'r', 'm', 'S', 'O', 'F', 'R', '6', 'm'],
        "ESTR"@ == seq!['E', 'S', 'T', 'R'],
        "EURIBOR1m"@ == seq!['E', 'U', 'R', 'I', 'B', 'O', 'R', '1', 'm'],
        "ICP"@ == seq!['I', 'C', 'P'],
        "Collateral("@ == seq!['C', 'o', 'l', 'l', 'a', 't', 'e', 'r', 'a', 'l', '('],
        "Equity("@ == seq!['E', 'q', 'u', 'i', 't', 'y', '('],
        "Other("@ == seq!['O', 't', 'h', 'e', 'r', '('],
        "/"@ == seq!['/'],
        ")"@ == seq![')'],
{
    reveal_strlit("SOFR");
    reveal_strlit("TermSOFR3m");
    reveal_strlit("TermSOFR6m");
    reveal_strlit("ESTR");
    reveal_strlit("EURIBOR1m");
    reveal_strlit("ICP");
    reveal_strlit("Collateral(");
    reveal_strlit("Equity(");
    reveal_strlit("Other(");
    reveal_strlit("/");
    reveal_strlit(")");
    assert("SOFR"@ =~= seq!['S', 'O', 'F', 'R']);
    assert("TermSOFR3m"@ =~= seq!['T', 'e', 'r', 'm', 'S', 'O', 'F', 'R', '3', 'm']);
    assert("TermSOFR6m"@ =~= seq!['T', 'e', 'r', 'm', 'S', 'O', 'F', 'R', '6', 'm']);
    assert("ESTR"@ =~= seq!['E', 'S', 'T', 'R']);
    assert("EURIBOR1m"@ =~= seq!['E', 'U', 'R', 'I', 'B', 'O', 'R', '1', 'm']);
    assert("ICP"@ =~= seq!['I', 'C', 'P']);
    assert("Collateral("@ =~= seq!['C', 'o', 'l', 'l', 'a', 't', 'e', 'r', 'a', 'l', '(']);
    assert("Equity("@ =~= seq!['E', 'q', 'u', 'i', 't', 'y', '(']);
    assert("Other("@ =~= seq!['O', 't', 'h', 'e', 'r', '(']);
    assert("/"@ =~= seq!['/']);
    assert(")"@ =~= seq![')']);
}

/// Each named index is read from its name, and a collateral index from
/// `Collateral(` the two ISO codes separated by `/` and `)`.
pub proof fn lemma_index_names(a: Currency, b: Currency)
    ensures
        parse_index_text(seq!['S', 'O', 'F', 'R']) == Some(IndexKey::SOFR),
        parse_index_text(seq!['T', 'e', 'r', 'm', 'S', 'O', 'F', 'R', '3', 'm']) == Some(IndexKey::TermSOFR3m),
        parse_index_text(seq!['T', 'e', 'r', 'm', 'S', 'O', 'F', 'R', '6', 'm']) == Some(IndexKey::TermSOFR6m),
        parse_index_text(seq!['E', 'S', 'T', 'R']) == Some(IndexKey::ESTR),
        parse_index_text(seq!['E', 'U', 'R', 'I', 'B', 'O', 'R', '1', 'm']) == Some(IndexKey::EURIBOR1m),
        parse_index_text(seq!['I', 'C', 'P']) == Some(IndexKey::ICP),
        parse_index_text(seq!['C', 'o', 'l', 'l', 'a', 't', 'e', 'r', 'a', 'l', '('] + currency_code(a) + seq!['/'] + currency_code(b) + seq![')'])
            == Some(IndexKey::Collateral(a, b)),
{
    reveal_index_names();
    lemma_index_text_roundtrip(IndexKey::SOFR);
    lemma_index_text_roundtrip(IndexKey::TermSOFR3m);
    lemma_index_text_roundtrip(IndexKey::TermSOFR6m);
    lemma_index_text_roundtrip(IndexKey::ESTR);
    lemma_index_text_roundtrip(IndexKey::EURIBOR1m);
    lemma_index_text_roundtrip(IndexKey::ICP);
    lemma_index_text_roundtrip(IndexKey::Collateral(a, b));
}

/// Reading back the textual form of an index gives that index.
pub proof fn lemma_index_text_roundtrip(k: IndexKey)
    ensures
        parse_index_text(index_text(k)) == Some(k),
{
    reveal_index_names();
    let t = index_text(k);
    match k {
        IndexKey::Collateral(a, b) => {
            lemma_currency_code_len(a);
            lemma_currency_code_len(b);
            lemma_currency_code_roundtrip(a);
            lemma_currency_code_roundtrip(b);
            let ca = currency_code(a);
            let cb = currency_code(b);
            assert(t =~= "Collateral("@ + ca + "/"@ + cb + ")"@);
            assert(t.subrange(0, 11) =~= "Collateral("@);
            assert(t.subrange(11, 14) =~= ca);
            assert(t.subrange(15, 18) =~= cb);
            assert(t[14] == '/');
            assert(t[18] == ')');
            assert(t != "SOFR"@);
            assert(t != "TermSOFR3m"@);
            assert(t != "TermSOFR6m"@);
            assert(t != "ESTR"@);
            assert(t != "EURIBOR1m"@);
            assert(t != "ICP"@);
        },
        IndexKey::Equity(s) => {
            assert(t.len() == s.len() + 8);
            assert(t[0] == 'E');
            assert(t[1] == 'q');
            assert(t != "SOFR"@);
            assert(t != "TermSOFR3m"@);
            assert(t != "TermSOFR6m"@);
            assert(t != "ESTR"@);
            assert(t != "EURIBOR1m"@);
            assert(t != "ICP"@);
            assert(t.subrange(0, 11) != "Collateral("@ || t.len() < 11);
            assert(t.subrange(0, 7) =~= "Equity("@);
            assert(t.subrange(7, t.len() - 1) =~= s);
        },
        IndexKey::Other(s) => {
            assert(t.len() == s.len() + 7);
            assert(t[0] == 'O');
            assert(t != "SOFR"@);
            assert(t != "TermSOFR3m"@);
            assert(t != "TermSOFR6m"@);
            assert(t != "ESTR"@);
            assert(t != "EURIBOR1m"@);
            assert(t != "ICP"@);
            assert(t.len() < 11 || t.subrange(0, 11) != "Collateral("@);
            assert(t.len() < 7 || t.subrange(0, 7) != "Equity("@);
            assert(t.subrange(0, 6) =~= "Other("@);
            assert(t.subrange(6, t.len() - 1) =~= s);
        },
        _ => {},
    }
}

impl MarketIndex {
    /// Whether two indices are the same (same variant, same currencies or name).
    pub fn same_as(&self, other: &MarketIndex) -> (r: bool)
        ensures
            r == (self@ == other@),
    {
        match (self, other) {
            (MarketIndex::SOFR, MarketIndex::SOFR) => true,
            (MarketIndex::TermSOFR3m, MarketIndex::TermSOFR3m) => true,
            (MarketIndex::TermSOFR6m, MarketIndex::TermSOFR6m) => true,
            (MarketIndex::ESTR, MarketIndex::ESTR) => true,
            (MarketIndex::EURIBOR1m, MarketIndex::EURIBOR1m) => true,
            (MarketIndex::ICP, MarketIndex::ICP) => true,
            (MarketIndex::Collateral(a, b), MarketIndex::Collateral(c, d)) => *a == *c && *b == *d,
            (MarketIndex::Equity(a), MarketIndex::Equity(b)) => str_equals(a.as_str(), b.as_str()),
            (MarketIndex::Other(a), MarketIndex::Other(b)) => str_equals(a.as_str(), b.as_str()),
            _ => false,
        }
    }

    /// A copy of the index with the same value.
    pub fn duplicate(&self) -> (r: MarketIndex)
        ensures
            r@ == self@,
            r == *self,
    {
        match self {
            MarketIndex::SOFR => MarketIndex::SOFR,
            MarketIndex::TermSOFR3m => MarketIndex::TermSOFR3m,
            MarketIndex::TermSOFR6m => MarketIndex::TermSOFR6m,
            MarketIndex::ESTR => MarketIndex::ESTR,
            MarketIndex::EURIBOR1m => MarketIndex::EURIBOR1m,
            MarketIndex::ICP => MarketIndex::ICP,
            MarketIndex::Collateral(a, b) => MarketIndex::Collateral(*a, *b),
            MarketIndex::Equity(s) => MarketIndex::Equity(s.clone()),
            MarketIndex::Other(s) => MarketIndex::Other(s.clone()),
        }
    }

    /// The textual form of the index, e.g. `SOFR` or `Collateral(CLP/USD)`.
    pub fn to_string(&self) -> (r: String)
        ensures
            r@ == index_text(self@),
    {
        let mut out = String::new();
        match self {
            MarketIndex::SOFR => out.append("SOFR"),
            MarketIndex::TermSOFR3m => out.append("TermSOFR3m"),
            MarketIndex::TermSOFR6m => out.append("TermSOFR6m"),
            MarketIndex::ESTR => out.append("ESTR"),
            MarketIndex::EURIBOR1m => out.append("EURIBOR1m"),
            MarketIndex::ICP => out.append("ICP"),
            MarketIndex::Collateral(a, b) => {
                out.append("Collateral(");
                out.append(a.code());
                out.append("/");
                out.append(b.code());
                out.append(")");
            },
            MarketIndex::Equity(s) => {
                out.append("Equity(");
                out.append(s.as_str());
                out.append(")");
            },
            MarketIndex::Other(s) => {
                out.append("Other(");
                out.append(s.as_str());
                out.append(")");
            },
        }
        assert(out@ =~= index_text(self@));
        out
    }

    /// Parses the textual form written by [`MarketIndex::to_string`]; an
    /// equity index may also be written by its bare ticker, e.g. `SPX`.
    pub fn parse(s: &str) -> (r: Result<MarketIndex, QSError>)
        ensures
            parse_index_text(s@) matches Some(k) ==> (r matches Ok(i) && i@ == k),
            parse_index_text(s@) is None ==> r == Err::<MarketIndex, QSError>(QSError::UnknownMarketIndex),
    {
        if str_equals(s, "SOFR") {
            return Ok(MarketIndex::SOFR);
        }
        if str_equals(s, "TermSOFR3m") {
            return Ok(MarketIndex::TermSOFR3m);
        }
        if str_equals(s, "TermSOFR6m") {
            return Ok(MarketIndex::TermSOFR6m);
        }
        if str_equals(s, "ESTR") {
            return Ok(MarketIndex::ESTR);
        }
        if str_equals(s, "EURIBOR1m") {
            return Ok(MarketIndex::EURIBOR1m);
        }
        if str_equals(s, "ICP") {
            return Ok(MarketIndex::ICP);
        }
        let n = s.unicode_len();
        if let Some(k) = Self::parse_collateral(s) {
            return Ok(k);
        }
        if n >= 8 && starts_with(s, "Equity(") && s.get_char(n - 1) == ')' {
            proof { reveal_index_names(); }
            return Ok(MarketIndex::Equity(s.substring_char(7, n - 1).to_owned()));
        }
        if n >= 7 && starts_with(s, "Other(") && s.get_char(n - 1) == ')' {
            proof { reveal_index_names(); }
            return Ok(MarketIndex::Other(s.substring_char(6, n - 1).to_owned()));
        }
        if Self::ticker(s) {
            proof { reveal_index_names(); }
            return Ok(MarketIndex::Equity(s.to_owned()));
        }
        proof { reveal_index_names(); }
        Err(QSError::UnknownMarketIndex)
    }

    /// Whether `s` is a bare equity ticker.
    fn ticker(s: &str) -> (r: bool)
        ensures
            r == is_ticker(s@),
    {
        let n = s.unicode_len();
        if n == 0 {
            return false;
        }
        let mut i: usize = 0;
        while i < n
            invariant
                n == s@.len(),
                i <= n,
                forall|j: int| 0 <= j < i ==> is_ticker_char(#[trigger] s@[j]),
            decreases n - i,
        {
            let c = s.get_char(i);
            if !((c >= 'A' && c <= 'Z') || (c >= 'a' && c <= 'z') || (c >= '0' && c <= '9')) {
                assert(!is_ticker_char(s@[i as int]));
                return false;
            }
            i = i + 1;
        }
        true
    }

    /// Parses the form `Collateral(XXX/YYY)`.
    fn parse_collateral(s: &str) -> (r: Option<MarketIndex>)
        ensures
            parse_collateral_text(s@) matches Some(k) ==> (r matches Some(i) && i@ == k),
            parse_collateral_text(s@) is None ==> r is None,
    {
        proof { reveal_index_names(); }
        let n = s.unicode_len();
        if n != 19 || !starts_with(s, "Collateral(") || s.get_char(14) != '/' || s.get_char(18) != ')' {
            return None;
        }
        let a = Currency::from_code(s.substring_char(11, 14));
        let b = Currency::from_code(s.substring_char(15, 18));
        match (a, b) {
            (Ok(a), Ok(b)) => Some(MarketIndex::Collateral(a, b)),
            _ => None,
        }
    }
}

} // verus!
