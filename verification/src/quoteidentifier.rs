//! The grammar of quote identifiers: segments separated by `_`, the second
//! of which names the instrument, e.g. `USD_OIS_SOFR_1Y` or
//! `EURUSD_ForwardPoints_1M`.
use vstd::prelude::*;
use vstd::string::*;

use crate::currency::{currency_code, currency_from_code, lemma_code_of_read, Currency};
use crate::errors::QSError;
use crate::marketindex::{parse_index_text, IndexKey, MarketIndex};
use crate::quote::{
    option_strategy_named, strike_type_named, vol_type_named, OptionStrategy, QuoteDetails, QuoteInstrument,
    StrikeType, VolatilityType,
};
use crate::text::str_equals;
use crate::time::{Period, TimeUnit};

verus! {

/// The segments of `s` separated by `sep`, empty segments included.
pub open spec fn split_on(s: Seq<char>, sep: char) -> Seq<Seq<char>>
    decreases s.len(),
{
    if s.len() == 0 {
        seq![Seq::<char>::empty()]
    } else {
        let p = split_on(s.drop_last(), sep);
        if s.last() == sep {
            p.push(Seq::<char>::empty())
        } else {
            p.update(p.len() - 1, p.last().push(s.last()))
        }
    }
}

/// Splitting never gives an empty list of segments.
proof fn lemma_split_nonempty(s: Seq<char>, sep: char)
    ensures
        split_on(s, sep).len() >= 1,
    decreases s.len(),
{
    if s.len() > 0 {
        lemma_split_nonempty(s.drop_last(), sep);
    }
}

/// The segments joined back together, with `sep` between consecutive ones.
pub open spec fn joined(p: Seq<Seq<char>>, sep: char) -> Seq<char>
    decreases p.len(),
{
    if p.len() == 0 {
        Seq::empty()
    } else if p.len() == 1 {
        p[0]
    } else {
        joined(p.drop_last(), sep) + seq![sep] + p.last()
    }
}

/// Splitting cuts `s` at every separator and nowhere else: no segment holds
/// the separator, and joining the segments with it gives `s` back.
pub proof fn lemma_split_joins(s: Seq<char>, sep: char)
    ensures
        split_on(s, sep).len() >= 1,
        joined(split_on(s, sep), sep) == s,
        forall|i: int, j: int| 0 <= i < split_on(s, sep).len() && 0 <= j < split_on(s, sep)[i].len() ==> #[trigger] split_on(s, sep)[i][j] != sep,
    decreases s.len(),
{
    if s.len() == 0 {
        assert(joined(seq![Seq::<char>::empty()], sep) == Seq::<char>::empty());
    } else {
        let init = s.drop_last();
        lemma_split_joins(init, sep);
        let p = split_on(init, sep);
        let c = s.last();
        let n = p.len();
        if c == sep {
            let r = p.push(Seq::<char>::empty());
            assert(r.drop_last() =~= p);
            assert(joined(r, sep) =~= joined(p, sep) + seq![sep] + Seq::<char>::empty());
            assert(s =~= init + seq![sep]);
            assert forall|i: int, j: int| 0 <= i < r.len() && 0 <= j < r[i].len() implies #[trigger] r[i][j] != sep by {
                assert(r[i] == p[i]);
            }
        } else {
            let l = p.last().push(c);
            let r = p.update(n - 1, l);
            if n == 1 {
                assert(joined(r, sep) == r[0]);
                assert(joined(p, sep) == p[0]);
                assert(s =~= init.push(c));
            } else {
                assert(r.drop_last() =~= p.drop_last());
                assert(joined(r, sep) == joined(p.drop_last(), sep) + seq![sep] + l);
                assert(joined(p, sep) == joined(p.drop_last(), sep) + seq![sep] + p.last());
                assert(joined(r, sep) =~= joined(p, sep).push(c));
                assert(s =~= init.push(c));
            }
            assert forall|i: int, j: int| 0 <= i < r.len() && 0 <= j < r[i].len() implies #[trigger] r[i][j] != sep by {
                if i < n - 1 {
                    assert(r[i] == p[i]);
                } else if j < p.last().len() {
                    assert(r[i][j] == p[n - 1][j]);
                }
            }
        }
    }
}

/// The views of the segments.
pub open spec fn segment_views(parts: Seq<&str>) -> Seq<Seq<char>> {
    parts.map_values(|p: &str| p@)
}

/// Splits `s` at every `_`.
pub fn split_underscores(s: &str) -> (r: Vec<&str>)
    ensures
        segment_views(r@) == split_on(s@, '_'),
{
    let n = s.unicode_len();
    let mut parts: Vec<&str> = Vec::new();
    let mut start: usize = 0;
    let mut i: usize = 0;
    proof {
        assert(s@.take(0) =~= Seq::<char>::empty());
        assert(s@.subrange(0, 0) =~= Seq::<char>::empty());
        assert(segment_views(parts@).push(s@.subrange(0, 0)) =~= seq![Seq::<char>::empty()]);
    }
    while i < n
        invariant
            n == s@.len(),
            start <= i <= n,
            split_on(s@.take(i as int), '_') == segment_views(parts@).push(s@.subrange(start as int, i as int)),
        decreases n - i,
    {
        let c = s.get_char(i);
        let ghost before = parts@;
        proof {
            assert(s@.take(i + 1).drop_last() =~= s@.take(i as int));
            assert(s@.take(i + 1).last() == c);
            lemma_split_nonempty(s@.take(i as int), '_');
        }
        if c == '_' {
            let seg = s.substring_char(start, i);
            parts.push(seg);
            proof {
                assert(segment_views(parts@) =~= segment_views(before).push(seg@));
                assert(s@.subrange(i + 1, i + 1) =~= Seq::<char>::empty());
            }
            start = i + 1;
        } else {
            proof {
                assert(s@.subrange(start as int, i + 1) =~= s@.subrange(start as int, i as int).push(c));
                assert(segment_views(parts@).push(s@.subrange(start as int, i as int)).update(before.len() as int, s@.subrange(start as int, i + 1))
                    =~= segment_views(parts@).push(s@.subrange(start as int, i + 1)));
            }
        }
        i = i + 1;
    }
    let ghost before = parts@;
    let last = s.substring_char(start, n);
    parts.push(last);
    proof {
        assert(s@.take(n as int) =~= s@);
        assert(segment_views(parts@) =~= segment_views(before).push(last@));
    }
    parts
}

/// Whether `c` is a decimal digit.
pub open spec fn is_digit(c: char) -> bool {
    '0' <= c <= '9'
}

/// Every character of `s` is a decimal digit.
pub open spec fn all_digits(s: Seq<char>) -> bool {
    forall|i: int| 0 <= i < s.len() ==> is_digit(#[trigger] s[i])
}

/// The number written by the decimal digits `s`.
pub open spec fn digits_value(s: Seq<char>) -> int
    decreases s.len(),
{
    if s.len() == 0 {
        0
    } else {
        digits_value(s.drop_last()) * 10 + (s.last() as int - '0' as int)
    }
}

/// A prefix of a digit string is worth no more than the whole.
proof fn lemma_digits_monotone(s: Seq<char>, k: int)
    requires
        all_digits(s),
        0 <= k <= s.len(),
    ensures
        0 <= digits_value(s.take(k)) <= digits_value(s),
    decreases s.len(),
{
    if k < s.len() {
        let p = s.drop_last();
        assert(p.take(k) =~= s.take(k));
        assert(is_digit(s[s.len() - 1]));
        lemma_digits_monotone(p, k);
        lemma_digits_monotone(p, p.len() as int);
        assert(p.take(p.len() as int) =~= p);
    } else {
        assert(s.take(k) =~= s);
        if s.len() > 0 {
            let p = s.drop_last();
            assert(is_digit(s[s.len() - 1]));
            lemma_digits_monotone(p, p.len() as int);
            assert(p.take(p.len() as int) =~= p);
        }
    }
}

/// The unit letter of a tenor.
pub open spec fn tenor_unit(c: char) -> Option<TimeUnit> {
    if c == 'D' {
        Some(TimeUnit::Days)
    } else if c == 'W' {
        Some(TimeUnit::Weeks)
    } else if c == 'M' {
        Some(TimeUnit::Months)
    } else if c == 'Y' {
        Some(TimeUnit::Years)
    } else {
        None
    }
}

/// The tenor written as `s`: a decimal number of units that fits in an
/// `i32`, followed by `D`, `W`, `M` or `Y`, e.g. `3M` or `10Y`.
pub open spec fn tenor_of(s: Seq<char>) -> Option<Period> {
    if s.len() >= 2 && all_digits(s.drop_last()) && digits_value(s.drop_last()) <= i32::MAX
        && tenor_unit(s.last()) is Some {
        Some(Period { length: digits_value(s.drop_last()) as i32, unit: tenor_unit(s.last())->Some_0 })
    } else {
        None
    }
}

/// A tenor is written as its length in decimal digits followed by the letter
/// of its unit: `D` days, `W` weeks, `M` months, `Y` years; any other final
/// letter is no tenor. Each digit appended multiplies the length read so far
/// by ten and adds the digit.
pub proof fn lemma_tenor_text(d: Seq<char>, u: char, c: char)
    requires
        d.len() >= 1,
        all_digits(d),
        digits_value(d) <= i32::MAX,
    ensures
        u == 'D' ==> tenor_of(d.push(u)) == Some(Period { length: digits_value(d) as i32, unit: TimeUnit::Days }),
        u == 'W' ==> tenor_of(d.push(u)) == Some(Period { length: digits_value(d) as i32, unit: TimeUnit::Weeks }),
        u == 'M' ==> tenor_of(d.push(u)) == Some(Period { length: digits_value(d) as i32, unit: TimeUnit::Months }),
        u == 'Y' ==> tenor_of(d.push(u)) == Some(Period { length: digits_value(d) as i32, unit: TimeUnit::Years }),
        u != 'D' && u != 'W' && u != 'M' && u != 'Y' ==> tenor_of(d.push(u)) is None,
        digits_value(seq![c]) == c as int - '0' as int,
        digits_value(d.push(c)) == 10 * digits_value(d) + (c as int - '0' as int),
{
    assert(d.push(u).drop_last() =~= d);
    assert(d.push(c).drop_last() =~= d);
    assert(seq![c].drop_last() =~= Seq::<char>::empty());
    assert(digits_value(Seq::<char>::empty()) == 0);
    assert(seq![c].last() == c);
    assert(digits_value(seq![c]) == digits_value(seq![c].drop_last()) * 10 + (seq![c].last() as int - '0' as int));
}

/// Parses a tenor such as `3M` or `1Y`.
pub fn parse_tenor(s: &str) -> (r: Result<Period, QSError>)
    ensures
        tenor_of(s@) matches Some(p) ==> r == Ok::<Period, QSError>(p),
        tenor_of(s@) is None ==> r == Err::<Period, QSError>(QSError::InvalidTenor),
{
    let n = s.unicode_len();
    if n < 2 {
        return Err(QSError::InvalidTenor);
    }
    let unit = match s.get_char(n - 1) {
        'D' => TimeUnit::Days,
        'W' => TimeUnit::Weeks,
        'M' => TimeUnit::Months,
        'Y' => TimeUnit::Years,
        _ => return Err(QSError::InvalidTenor),
    };
    let ghost body = s@.drop_last();
    let mut value: i64 = 0;
    let mut i: usize = 0;
    while i < n - 1
        invariant
            n == s@.len(),
            n >= 2,
            body == s@.drop_last(),
            i <= n - 1,
            all_digits(body.take(i as int)),
            value == digits_value(body.take(i as int)),
            0 <= value <= i32::MAX,
        decreases n - 1 - i,
    {
        let c = s.get_char(i);
        proof {
            assert(body[i as int] == c);
            assert(body.take(i + 1).drop_last() =~= body.take(i as int));
        }
        if c < '0' || c > '9' {
            proof {
                assert(!is_digit(body[i as int]));
            }
            return Err(QSError::InvalidTenor);
        }
        let d: i64 = (c as u32 - '0' as u32) as i64;
        let next: i64 = value * 10 + d;
        proof {
            assert(all_digits(body.take(i + 1)));
            assert(next == digits_value(body.take(i + 1)));
        }
        if next > 2147483647 {
            proof {
                if all_digits(body) {
                    lemma_digits_monotone(body, i + 1);
                }
            }
            return Err(QSError::InvalidTenor);
        }
        value = next;
        i = i + 1;
    }
    proof {
        assert(body.take(n - 1) =~= body);
    }
    Ok(Period { length: value as i32, unit })
}

/// `c` is the letter `w`, in either case (`w` written in lower case).
pub open spec fn letter_matches(c: char, w: char) -> bool {
    c == w || ('a' <= w <= 'z' && c as int == w as int - 32)
}

/// `s` spells `w` ignoring the case of letters.
pub open spec fn word_ci(s: Seq<char>, w: Seq<char>) -> bool {
    s.len() == w.len() && forall|i: int| 0 <= i < s.len() ==> letter_matches(#[trigger] s[i], w[i])
}

/// The characters of `s` from `from` to `to` spell `w`, ignoring case.
fn matches_word(s: &str, from: usize, to: usize, w: &Vec<char>) -> (r: bool)
    requires
        from <= to <= s@.len(),
    ensures
        r == word_ci(s@.subrange(from as int, to as int), w@),
{
    if to - from != w.len() {
        return false;
    }
    let ghost sub = s@.subrange(from as int, to as int);
    let mut i: usize = 0;
    while i < w.len()
        invariant
            from <= to <= s@.len(),
            sub == s@.subrange(from as int, to as int),
            to - from == w@.len(),
            i <= w@.len(),
            forall|j: int| 0 <= j < i ==> letter_matches(#[trigger] sub[j], w@[j]),
        decreases w@.len() - i,
    {
        let c = s.get_char(from + i);
        let x = w[i];
        assert(sub[i as int] == c);
        if !(c == x || (x >= 'a' && x <= 'z' && (c as u32) + 32 == (x as u32))) {
            return false;
        }
        i = i + 1;
    }
    true
}

/// An exponent mark of a decimal number.
pub open spec fn is_exp_mark(c: char) -> bool {
    c == 'e' || c == 'E'
}

/// Digits with at most one decimal point, and at least one digit.
pub open spec fn is_mantissa(m: Seq<char>) -> bool {
    &&& forall|i: int| 0 <= i < m.len() ==> is_digit(#[trigger] m[i]) || m[i] == '.'
    &&& forall|i: int, j: int| 0 <= i < j < m.len() ==> !(#[trigger] m[i] == '.' && #[trigger] m[j] == '.')
    &&& exists|i: int| 0 <= i < m.len() && is_digit(#[trigger] m[i])
}

/// An optional sign followed by at least one digit.
pub open spec fn is_exponent_digits(e: Seq<char>) -> bool {
    let d = if e.len() > 0 && (e[0] == '+' || e[0] == '-') { e.skip(1) } else { e };
    d.len() > 0 && all_digits(d)
}

/// A decimal number: a mantissa, optionally followed by an exponent mark and
/// exponent digits.
pub open spec fn is_decimal_text(b: Seq<char>) -> bool {
    ||| is_mantissa(b)
    ||| exists|k: int| 0 <= k < b.len() && #[trigger] is_exp_mark(b[k]) && is_mantissa(b.take(k)) && is_exponent_digits(b.skip(k + 1))
}

/// `s` is text that parses as a floating-point number: an optional sign,
/// then `inf`, `infinity` or `nan` in any case, or a decimal number.
pub open spec fn is_float_text(s: Seq<char>) -> bool {
    let b = if s.len() > 0 && (s[0] == '+' || s[0] == '-') { s.skip(1) } else { s };
    ||| word_ci(b, seq!['i', 'n', 'f'])
    ||| word_ci(b, seq!['i', 'n', 'f', 'i', 'n', 'i', 't', 'y'])
    ||| word_ci(b, seq!['n', 'a', 'n'])
    ||| is_decimal_text(b)
}

/// Whether the characters of `s` from `from` to `to` form a mantissa.
fn mantissa_ok(s: &str, from: usize, to: usize) -> (r: bool)
    requires
        from <= to <= s@.len(),
    ensures
        r == is_mantissa(s@.subrange(from as int, to as int)),
{
    let ghost m = s@.subrange(from as int, to as int);
    let mut dot = false;
    let mut digit = false;
    let mut i = from;
    while i < to
        invariant
            from <= i <= to <= s@.len(),
            m == s@.subrange(from as int, to as int),
            forall|j: int| 0 <= j < i - from ==> is_digit(#[trigger] m[j]) || m[j] == '.',
            forall|a: int, b: int| 0 <= a < b < i - from ==> !(#[trigger] m[a] == '.' && #[trigger] m[b] == '.'),
            dot == exists|j: int| 0 <= j < i - from && #[trigger] m[j] == '.',
            digit == exists|j: int| 0 <= j < i - from && is_digit(#[trigger] m[j]),
        decreases to - i,
    {
        let c = s.get_char(i);
        assert(m[i - from] == c);
        if c == '.' {
            if dot {
                return false;
            }
            dot = true;
        } else if c >= '0' && c <= '9' {
            digit = true;
        } else {
            return false;
        }
        i = i + 1;
    }
    digit
}

/// Whether the characters of `s` from `from` to `to` are exponent digits.
fn exponent_ok(s: &str, from: usize, to: usize) -> (r: bool)
    requires
        from <= to <= s@.len(),
    ensures
        r == is_exponent_digits(s@.subrange(from as int, to as int)),
{
    let ghost e = s@.subrange(from as int, to as int);
    let mut i = from;
    if i < to {
        let c = s.get_char(i);
        assert(e[0] == c);
        if c == '+' || c == '-' {
            i = i + 1;
        }
    }
    let ghost d = s@.subrange(i as int, to as int);
    assert(d =~= (if e.len() > 0 && (e[0] == '+' || e[0] == '-') { e.skip(1) } else { e }));
    if i == to {
        return false;
    }
    let start = i;
    while i < to
        invariant
            start <= i <= to <= s@.len(),
            d == s@.subrange(start as int, to as int),
            is_exponent_digits(s@.subrange(from as int, to as int)) == (d.len() > 0 && all_digits(d)),
            forall|j: int| 0 <= j < i - start ==> is_digit(#[trigger] d[j]),
        decreases to - i,
    {
        let c = s.get_char(i);
        assert(d[i - start] == c);
        if c < '0' || c > '9' {
            assert(!is_digit(d[i - start]));
            return false;
        }
        i = i + 1;
    }
    true
}

/// Position of the first exponent mark between `from` and `to`, or `to`.
fn first_exp_mark(s: &str, from: usize, to: usize) -> (k: usize)
    requires
        from <= to <= s@.len(),
    ensures
        from <= k <= to,
        forall|j: int| from <= j < k ==> !is_exp_mark(#[trigger] s@[j]),
        k < to ==> is_exp_mark(s@[k as int]),
{
    let mut k = from;
    while k < to
        invariant
            from <= k <= to <= s@.len(),
            forall|j: int| from <= j < k ==> !is_exp_mark(#[trigger] s@[j]),
        decreases to - k,
    {
        let c = s.get_char(k);
        if c == 'e' || c == 'E' {
            return k;
        }
        k = k + 1;
    }
    k
}

/// Whether the characters of `s` from `off` to the end form a decimal number.
fn decimal_ok(s: &str, off: usize) -> (r: bool)
    requires
        off <= s@.len(),
    ensures
        r == is_decimal_text(s@.subrange(off as int, s@.len() as int)),
{
    let n = s.unicode_len();
    let ghost b = s@.subrange(off as int, n as int);
    let k = first_exp_mark(s, off, n);
    assert forall|j: int| 0 <= j < k - off implies !is_exp_mark(#[trigger] b[j]) by {
        assert(b[j] == s@[off + j]);
    }
    if k == n {
        let r = mantissa_ok(s, off, n);
        proof {
            if exists|x: int| 0 <= x < b.len() && #[trigger] is_exp_mark(b[x]) && is_mantissa(b.take(x)) && is_exponent_digits(b.skip(x + 1)) {
                let x = choose|x: int| 0 <= x < b.len() && #[trigger] is_exp_mark(b[x]) && is_mantissa(b.take(x)) && is_exponent_digits(b.skip(x + 1));
                assert(!is_exp_mark(b[x]));
            }
        }
        r
    } else {
        let ghost kk = k - off;
        assert(b[kk] == s@[k as int]);
        let r = mantissa_ok(s, off, k) && exponent_ok(s, k + 1, n);
        proof {
            assert(b.take(kk) =~= s@.subrange(off as int, k as int));
            assert(b.skip(kk + 1) =~= s@.subrange(k + 1, n as int));
            if is_mantissa(b) {
                assert(!(is_digit(b[kk]) || b[kk] == '.'));
            }
            if exists|x: int| 0 <= x < b.len() && #[trigger] is_exp_mark(b[x]) && is_mantissa(b.take(x)) && is_exponent_digits(b.skip(x + 1)) {
                let x = choose|x: int| 0 <= x < b.len() && #[trigger] is_exp_mark(b[x]) && is_mantissa(b.take(x)) && is_exponent_digits(b.skip(x + 1));
                if x < kk {
                    assert(!is_exp_mark(b[x]));
                } else if x > kk {
                    assert(b.take(x)[kk] == b[kk]);
                    assert(!(is_digit(b.take(x)[kk]) || b.take(x)[kk] == '.'));
                }
            }
        }
        r
    }
}

/// Whether `s` is text that parses as a floating-point number.
pub fn is_float(s: &str) -> (r: bool)
    ensures
        r == is_float_text(s@),
{
    let n = s.unicode_len();
    let mut off: usize = 0;
    if n > 0 {
        let c = s.get_char(0);
        if c == '+' || c == '-' {
            off = 1;
        }
    }
    let ghost b = s@.subrange(off as int, n as int);
    assert(b =~= (if s@.len() > 0 && (s@[0] == '+' || s@[0] == '-') { s@.skip(1) } else { s@ }));
    let inf = vec!['i', 'n', 'f'];
    let infinity = vec!['i', 'n', 'f', 'i', 'n', 'i', 't', 'y'];
    let nan = vec!['n', 'a', 'n'];
    assert(inf@ =~= seq!['i', 'n', 'f']);
    assert(infinity@ =~= seq!['i', 'n', 'f', 'i', 'n', 'i', 't', 'y']);
    assert(nan@ =~= seq!['n', 'a', 'n']);
    if matches_word(s, off, n, &inf) || matches_word(s, off, n, &infinity) || matches_word(s, off, n, &nan) {
        return true;
    }
    decimal_ok(s, off)
}

/// What an identifier says of a quote; `strike_text` is the strike as
/// written, when the identifier carries one.
pub struct IdentifierFields {
    pub instrument: QuoteInstrument,
    pub market_index: Option<IndexKey>,
    pub secondary_market_index: Option<IndexKey>,
    pub currency: Option<Currency>,
    pub pay_currency: Option<Currency>,
    pub receive_currency: Option<Currency>,
    pub tenor: Option<Period>,
    pub option_expiry: Option<Period>,
    pub index_tenor: Option<Period>,
    pub strike_type: Option<StrikeType>,
    pub strategy: Option<OptionStrategy>,
    pub vol_type: Option<VolatilityType>,
    pub contract_code: Option<Seq<char>>,
    pub strike_text: Option<Seq<char>>,
}

/// The fields of an identifier of `instrument` that says nothing more.
pub open spec fn blank_fields(instrument: QuoteInstrument) -> IdentifierFields {
    IdentifierFields {
        instrument,
        market_index: None,
        secondary_market_index: None,
        currency: None,
        pay_currency: None,
        receive_currency: None,
        tenor: None,
        option_expiry: None,
        index_tenor: None,
        strike_type: None,
        strategy: None,
        vol_type: None,
        contract_code: None,
        strike_text: None,
    }
}

/// `{CCY}_OIS_{Index}_{Tenor}`.
pub open spec fn ois_fields(p: Seq<Seq<char>>) -> Result<IdentifierFields, QSError> {
    if p.len() < 4 {
        Err(QSError::MalformedIdentifier)
    } else {
        match currency_from_code(p[0]) {
            None => Err(QSError::UnknownCurrency),
            Some(c) => match parse_index_text(p[2]) {
                None => Err(QSError::UnknownMarketIndex),
                Some(k) => match tenor_of(p[3]) {
                    None => Err(QSError::InvalidTenor),
                    Some(t) => Ok(IdentifierFields {
                        market_index: Some(k),
                        currency: Some(c),
                        tenor: Some(t),
                        ..blank_fields(QuoteInstrument::OIS)
                    }),
                },
            },
        }
    }
}

/// `{CCY}_FixedRateDeposit_{Index}_{Tenor}`.
pub open spec fn deposit_fields(p: Seq<Seq<char>>) -> Result<IdentifierFields, QSError> {
    if p.len() < 4 {
        Err(QSError::MalformedIdentifier)
    } else {
        match currency_from_code(p[0]) {
            None => Err(QSError::UnknownCurrency),
            Some(c) => match parse_index_text(p[2]) {
                None => Err(QSError::UnknownMarketIndex),
                Some(k) => match tenor_of(p[3]) {
                    None => Err(QSError::InvalidTenor),
                    Some(t) => Ok(IdentifierFields {
                        market_index: Some(k),
                        currency: Some(c),
                        tenor: Some(t),
                        ..blank_fields(QuoteInstrument::FixedRateDeposit)
                    }),
                },
            },
        }
    }
}

/// `{CCY}_BasisSwap_{PayIndex}_{RecvIndex}_{Tenor}`.
pub open spec fn basis_swap_fields(p: Seq<Seq<char>>) -> Result<IdentifierFields, QSError> {
    if p.len() < 5 {
        Err(QSError::MalformedIdentifier)
    } else {
        match currency_from_code(p[0]) {
            None => Err(QSError::UnknownCurrency),
            Some(c) => match parse_index_text(p[2]) {
                None => Err(QSError::UnknownMarketIndex),
                Some(pay) => match parse_index_text(p[3]) {
                    None => Err(QSError::UnknownMarketIndex),
                    Some(recv) => match tenor_of(p[4]) {
                        None => Err(QSError::InvalidTenor),
                        Some(t) => Ok(IdentifierFields {
                            market_index: Some(pay),
                            currency: Some(c),
                            secondary_market_index: Some(recv),
                            tenor: Some(t),
                            ..blank_fields(QuoteInstrument::BasisSwap)
                        }),
                    },
                },
            },
        }
    }
}

/// `{CCY}_CrossCurrencySwap_{DomIndex}_{ForIndex}_{ForeignCCY}_{Tenor}`.
pub open spec fn cross_currency_swap_fields(p: Seq<Seq<char>>) -> Result<IdentifierFields, QSError> {
    if p.len() < 6 {
        Err(QSError::MalformedIdentifier)
    } else {
        match currency_from_code(p[0]) {
            None => Err(QSError::UnknownCurrency),
            Some(dom) => match parse_index_text(p[2]) {
                None => Err(QSError::UnknownMarketIndex),
                Some(dom_index) => match parse_index_text(p[3]) {
                    None => Err(QSError::UnknownMarketIndex),
                    Some(for_index) => match currency_from_code(p[4]) {
                        None => Err(QSError::UnknownCurrency),
                        Some(foreign) => match tenor_of(p[5]) {
                            None => Err(QSError::InvalidTenor),
                            Some(t) => Ok(IdentifierFields {
                                market_index: Some(dom_index),
                                currency: Some(dom),
                                pay_currency: Some(dom),
                                receive_currency: Some(foreign),
                                secondary_market_index: Some(for_index),
                                tenor: Some(t),
                                ..blank_fields(QuoteInstrument::CrossCurrencySwap)
                            }),
                        },
                    },
                },
            },
        }
    }
}

/// `{CCY}_{Future|ConvexityAdjustment}_{Index}_{IMMCode}`.
pub open spec fn contract_fields(p: Seq<Seq<char>>, instrument: QuoteInstrument) -> Result<IdentifierFields, QSError> {
    if p.len() < 4 {
        Err(QSError::MalformedIdentifier)
    } else {
        match currency_from_code(p[0]) {
            None => Err(QSError::UnknownCurrency),
            Some(c) => match parse_index_text(p[2]) {
                None => Err(QSError::UnknownMarketIndex),
                Some(k) => Ok(IdentifierFields {
                    market_index: Some(k),
                    currency: Some(c),
                    contract_code: Some(p[3]),
                    ..blank_fields(instrument)
                }),
            },
        }
    }
}

/// The two currencies of a pair written as six letters, e.g. `EURUSD`
/// (further characters are ignored).
pub open spec fn fx_pair_of(s: Seq<char>) -> Result<(Currency, Currency), QSError> {
    if s.len() < 6 {
        Err(QSError::MalformedIdentifier)
    } else {
        match currency_from_code(s.subrange(0, 3)) {
            None => Err(QSError::UnknownCurrency),
            Some(base) => match currency_from_code(s.subrange(3, 6)) {
                None => Err(QSError::UnknownCurrency),
                Some(quote) => Ok((base, quote)),
            },
        }
    }
}

/// `{CCYPAIR}_{OutrightForward|ForwardPoints}_{Tenor}`.
pub open spec fn fx_fields(p: Seq<Seq<char>>, instrument: QuoteInstrument) -> Result<IdentifierFields, QSError> {
    if p.len() < 3 {
        Err(QSError::MalformedIdentifier)
    } else {
        match fx_pair_of(p[0]) {
            Err(e) => Err(e),
            Ok((base, quote)) => match tenor_of(p[2]) {
                None => Err(QSError::InvalidTenor),
                Some(t) => Ok(IdentifierFields {
                    pay_currency: Some(base),
                    receive_currency: Some(quote),
                    tenor: Some(t),
                    ..blank_fields(instrument)
                }),
            },
        }
    }
}

/// `{CCY}_{Call|Put}_{Index}_{Expiry}_{Strike}`.
pub open spec fn option_fields(p: Seq<Seq<char>>, instrument: QuoteInstrument) -> Result<IdentifierFields, QSError> {
    if p.len() < 5 {
        Err(QSError::MalformedIdentifier)
    } else {
        match currency_from_code(p[0]) {
            None => Err(QSError::UnknownCurrency),
            Some(c) => match parse_index_text(p[2]) {
                None => Err(QSError::UnknownMarketIndex),
                Some(k) => match tenor_of(p[3]) {
                    None => Err(QSError::InvalidTenor),
                    Some(t) => if is_float_text(p[4]) {
                        Ok(IdentifierFields {
                            market_index: Some(k),
                            currency: Some(c),
                            tenor: Some(t),
                            strike_text: Some(p[4]),
                            ..blank_fields(instrument)
                        })
                    } else {
                        Err(QSError::InvalidStrike)
                    },
                },
            },
        }
    }
}

/// `{CCY}_CapFloor_{Index}_{Tenor}_{StrikeType}[_{Strike}]_{VolType}`.
pub open spec fn cap_floor_fields(p: Seq<Seq<char>>) -> Result<IdentifierFields, QSError> {
    if p.len() < 6 {
        Err(QSError::MalformedIdentifier)
    } else {
        match currency_from_code(p[0]) {
            None => Err(QSError::UnknownCurrency),
            Some(c) => match parse_index_text(p[2]) {
                None => Err(QSError::UnknownMarketIndex),
                Some(k) => match tenor_of(p[3]) {
                    None => Err(QSError::InvalidTenor),
                    Some(t) => match strike_type_named(p[4]) {
                        None => Err(QSError::UnknownStrikeType),
                        Some(st) => {
                            let has_strike = is_float_text(p[5]);
                            let vi: int = if has_strike { 6 } else { 5 };
                            if vi >= p.len() {
                                Err(QSError::MalformedIdentifier)
                            } else {
                                match vol_type_named(p[vi]) {
                                    None => Err(QSError::UnknownVolatilityType),
                                    Some(v) => Ok(IdentifierFields {
                                        market_index: Some(k),
                                        currency: Some(c),
                                        tenor: Some(t),
                                        strike_type: Some(st),
                                        vol_type: Some(v),
                                        strike_text: if has_strike { Some(p[5]) } else { None },
                                        ..blank_fields(QuoteInstrument::CapFloor)
                                    }),
                                }
                            }
                        },
                    },
                },
            },
        }
    }
}

/// `{CCY}_CapletFloorlet_{Index}_{IdxTenor}_{Expiry}_{StrikeType}[_{Strike}]_{Strategy}_{VolType}`.
pub open spec fn caplet_floorlet_fields(p: Seq<Seq<char>>) -> Result<IdentifierFields, QSError> {
    if p.len() < 8 {
        Err(QSError::MalformedIdentifier)
    } else {
        match currency_from_code(p[0]) {
            None => Err(QSError::UnknownCurrency),
            Some(c) => match parse_index_text(p[2]) {
                None => Err(QSError::UnknownMarketIndex),
                Some(k) => match tenor_of(p[3]) {
                    None => Err(QSError::InvalidTenor),
                    Some(index_tenor) => match tenor_of(p[4]) {
                        None => Err(QSError::InvalidTenor),
                        Some(expiry) => match strike_type_named(p[5]) {
                            None => Err(QSError::UnknownStrikeType),
                            Some(st) => {
                                let has_strike = is_float_text(p[6]);
                                let ni: int = if has_strike { 7 } else { 6 };
                                match option_strategy_named(p[ni]) {
                                    None => Err(QSError::UnknownOptionStrategy),
                                    Some(strategy) => if ni + 1 >= p.len() {
                                        Err(QSError::MalformedIdentifier)
                                    } else {
                                        match vol_type_named(p[ni + 1]) {
                                            None => Err(QSError::UnknownVolatilityType),
                                            Some(v) => Ok(IdentifierFields {
                                                market_index: Some(k),
                                                currency: Some(c),
                                                index_tenor: Some(index_tenor),
                                                option_expiry: Some(expiry),
                                                strike_type: Some(st),
                                                strategy: Some(strategy),
                                                vol_type: Some(v),
                                                strike_text: if has_strike { Some(p[6]) } else { None },
                                                ..blank_fields(QuoteInstrument::CapletFloorlet)
                                            }),
                                        }
                                    },
                                }
                            },
                        },
                    },
                },
            },
        }
    }
}

/// `{CCY}_Swaption_{Index}_{Expiry}_{SwapTenor}_{StrikeType}[_{Strike}]_{VolType}`.
pub open spec fn swaption_fields(p: Seq<Seq<char>>) -> Result<IdentifierFields, QSError> {
    if p.len() < 7 {
        Err(QSError::MalformedIdentifier)
    } else {
        match currency_from_code(p[0]) {
            None => Err(QSError::UnknownCurrency),
            Some(c) => match parse_index_text(p[2]) {
                None => Err(QSError::UnknownMarketIndex),
                Some(k) => match tenor_of(p[3]) {
                    None => Err(QSError::InvalidTenor),
                    Some(expiry) => match tenor_of(p[4]) {
                        None => Err(QSError::InvalidTenor),
                        Some(t) => match strike_type_named(p[5]) {
                            None => Err(QSError::UnknownStrikeType),
                            Some(st) => {
                                let has_strike = is_float_text(p[6]);
                                let vi: int = if has_strike { 7 } else { 6 };
                                if vi >= p.len() {
                                    Err(QSError::MalformedIdentifier)
                                } else {
                                    match vol_type_named(p[vi]) {
                                        None => Err(QSError::UnknownVolatilityType),
                                        Some(v) => Ok(IdentifierFields {
                                            market_index: Some(k),
                                            currency: Some(c),
                                            option_expiry: Some(expiry),
                                            tenor: Some(t),
                                            strike_type: Some(st),
                                            vol_type: Some(v),
                                            strike_text: if has_strike { Some(p[6]) } else { None },
                                            ..blank_fields(QuoteInstrument::Swaption)
                                        }),
                                    }
                                }
                            },
                        },
                    },
                },
            },
        }
    }
}

/// `s` names an instrument in a quote identifier.
pub open spec fn is_instrument_tag(s: Seq<char>) -> bool {
    s == "OIS"@
    || s == "FixedRateDeposit"@
    || s == "BasisSwap"@
    || s == "CrossCurrencySwap"@
    || s == "CapFloor"@
    || s == "CapletFloorlet"@
    || s == "Future"@
    || s == "ConvexityAdjustment"@
    || s == "Swaption"@
    || s == "OutrightForward"@
    || s == "ForwardPoints"@
    || s == "Call"@
    || s == "Put"@
}

/// The segments in currency-first order: when the second segment names no
/// instrument but the first does (an identifier written instrument first,
/// e.g. `OIS_USD_SOFR_1Y`), the first two segments trade places.
pub open spec fn canonical_segments(p: Seq<Seq<char>>) -> Seq<Seq<char>> {
    if p.len() >= 2 && !is_instrument_tag(p[1]) && is_instrument_tag(p[0]) {
        p.update(0, p[1]).update(1, p[0])
    } else {
        p
    }
}

/// Each kind of identifier reads its fields from fixed segments: the
/// currency from the first, the index from the third, then the kind's own
/// segments in the order its form writes them (a swaption's expiry before its
/// swap tenor, a caplet's index tenor before its expiry, a basis swap's pay
/// index before its receive index); a strike, when written, sits right after
/// the strike type, and the volatility type (and a caplet's strategy) after it.
pub proof fn lemma_identifier_segments(p: Seq<Seq<char>>)
    ensures
        ois_fields(p) matches Ok(f) ==> f.instrument == QuoteInstrument::OIS && f.currency == currency_from_code(p[0])
            && f.market_index == parse_index_text(p[2]) && f.tenor == tenor_of(p[3])
            && f.option_expiry is None && f.secondary_market_index is None,
        deposit_fields(p) matches Ok(f) ==> f.instrument == QuoteInstrument::FixedRateDeposit && f.currency == currency_from_code(p[0])
            && f.market_index == parse_index_text(p[2]) && f.tenor == tenor_of(p[3]),
        basis_swap_fields(p) matches Ok(f) ==> f.instrument == QuoteInstrument::BasisSwap && f.currency == currency_from_code(p[0])
            && f.market_index == parse_index_text(p[2]) && f.secondary_market_index == parse_index_text(p[3])
            && f.tenor == tenor_of(p[4]),
        cross_currency_swap_fields(p) matches Ok(f) ==> f.instrument == QuoteInstrument::CrossCurrencySwap
            && f.currency == currency_from_code(p[0]) && f.pay_currency == currency_from_code(p[0])
            && f.market_index == parse_index_text(p[2]) && f.secondary_market_index == parse_index_text(p[3])
            && f.receive_currency == currency_from_code(p[4]) && f.tenor == tenor_of(p[5]),
        forall|i: QuoteInstrument| #[trigger] contract_fields(p, i) matches Ok(f) ==> f.instrument == i
            && f.currency == currency_from_code(p[0]) && f.market_index == parse_index_text(p[2]) && f.contract_code == Some(p[3]),
        forall|i: QuoteInstrument| #[trigger] fx_fields(p, i) matches Ok(f) ==> f.instrument == i
            && fx_pair_of(p[0]) == Ok::<(Currency, Currency), QSError>((f.pay_currency->Some_0, f.receive_currency->Some_0))
            && f.pay_currency is Some && f.receive_currency is Some && f.tenor == tenor_of(p[2]),
        forall|i: QuoteInstrument| #[trigger] option_fields(p, i) matches Ok(f) ==> f.instrument == i
            && f.currency == currency_from_code(p[0]) && f.market_index == parse_index_text(p[2])
            && f.tenor == tenor_of(p[3]) && f.strike_text == Some(p[4]),
        cap_floor_fields(p) matches Ok(f) ==> f.instrument == QuoteInstrument::CapFloor && f.currency == currency_from_code(p[0])
            && f.market_index == parse_index_text(p[2]) && f.tenor == tenor_of(p[3])
            && f.strike_type == strike_type_named(p[4])
            && (is_float_text(p[5]) ==> f.strike_text == Some(p[5]) && f.vol_type == vol_type_named(p[6]))
            && (!is_float_text(p[5]) ==> f.strike_text is None && f.vol_type == vol_type_named(p[5])),
        caplet_floorlet_fields(p) matches Ok(f) ==> f.instrument == QuoteInstrument::CapletFloorlet
            && f.currency == currency_from_code(p[0]) && f.market_index == parse_index_text(p[2])
            && f.index_tenor == tenor_of(p[3]) && f.option_expiry == tenor_of(p[4]) && f.tenor is None
            && f.strike_type == strike_type_named(p[5])
            && (is_float_text(p[6]) ==> f.strike_text == Some(p[6]) && f.strategy == option_strategy_named(p[7]) && f.vol_type == vol_type_named(p[8]))
            && (!is_float_text(p[6]) ==> f.strike_text is None && f.strategy == option_strategy_named(p[6]) && f.vol_type == vol_type_named(p[7])),
        swaption_fields(p) matches Ok(f) ==> f.instrument == QuoteInstrument::Swaption && f.currency == currency_from_code(p[0])
            && f.market_index == parse_index_text(p[2]) && f.option_expiry == tenor_of(p[3]) && f.tenor == tenor_of(p[4])
            && f.strike_type == strike_type_named(p[5])
            && (is_float_text(p[6]) ==> f.strike_text == Some(p[6]) && f.vol_type == vol_type_named(p[7]))
            && (!is_float_text(p[6]) ==> f.strike_text is None && f.vol_type == vol_type_named(p[6])),
{
}

/// An identifier may name its instrument first or second: with the
/// instrument in the second segment the segments are read as written, with it
/// in the first (and none in the second) the first two trade places, so both
/// orders are read alike.
pub proof fn lemma_identifier_order(p: Seq<Seq<char>>)
    ensures
        p.len() >= 2 && is_instrument_tag(p[1]) ==> canonical_segments(p) == p,
        p.len() >= 2 && is_instrument_tag(p[0]) && !is_instrument_tag(p[1]) ==> {
            &&& canonical_segments(p).len() == p.len()
            &&& canonical_segments(p)[0] == p[1]
            &&& canonical_segments(p)[1] == p[0]
            &&& forall|i: int| 2 <= i < p.len() ==> #[trigger] canonical_segments(p)[i] == p[i]
            &&& canonical_segments(p) == canonical_segments(p.update(0, p[1]).update(1, p[0]))
        },
{
}

/// A pair written as six letters reads its base currency from the first three
/// and its quote currency from the next three.
pub proof fn lemma_fx_pair_letters(s: Seq<char>)
    ensures
        fx_pair_of(s) matches Ok((b, q)) ==> currency_code(b) == s.subrange(0, 3) && currency_code(q) == s.subrange(3, 6),
        s.len() >= 6 && currency_from_code(s.subrange(0, 3)) is Some && currency_from_code(s.subrange(3, 6)) is Some
            ==> fx_pair_of(s) is Ok,
{
    if fx_pair_of(s) is Ok {
        let (b, q) = fx_pair_of(s)->Ok_0;
        lemma_code_of_read(s.subrange(0, 3));
        lemma_code_of_read(s.subrange(3, 6));
    }
}

/// An identifier whose second segment names an instrument is read by that
/// instrument's form, from its segments as written; one with fewer than three
/// segments is malformed.
pub proof fn lemma_identifier_kind(s: Seq<char>)
    ensures
        ({
            let p = split_on(s, '_');
            &&& (p.len() < 3 ==> identifier_fields(s) == Err::<IdentifierFields, QSError>(QSError::MalformedIdentifier))
            &&& (p.len() >= 3 && p[1] == seq!['O', 'I', 'S'] ==> identifier_fields(s) == ois_fields(p))
            &&& (p.len() >= 3 && p[1] == seq!['F', 'i', 'x', 'e', 'd', 'R', 'a', 't', 'e', 'D', 'e', 'p', 'o', 's', 'i', 't'] ==> identifier_fields(s) == deposit_fields(p))
            &&& (p.len() >= 3 && p[1] == seq!['B', 'a', 's', 'i', 's', 'S', 'w', 'a', 'p'] ==> identifier_fields(s) == basis_swap_fields(p))
            &&& (p.len() >= 3 && p[1] == seq!['C', 'r', 'o', 's', 's', 'C', 'u', 'r', 'r', 'e', 'n', 'c', 'y', 'S', 'w', 'a', 'p'] ==> identifier_fields(s) == cross_currency_swap_fields(p))
            &&& (p.len() >= 3 && p[1] == seq!['C', 'a', 'p', 'F', 'l', 'o', 'o', 'r'] ==> identifier_fields(s) == cap_floor_fields(p))
            &&& (p.len() >= 3 && p[1] == seq!['C', 'a', 'p', 'l', 'e', 't', 'F', 'l', 'o', 'o', 'r', 'l', 'e', 't'] ==> identifier_fields(s) == caplet_floorlet_fields(p))
            &&& (p.len() >= 3 && p[1] == seq!['F', 'u', 't', 'u', 'r', 'e'] ==> identifier_fields(s) == contract_fields(p, QuoteInstrument::Future))
            &&& (p.len() >= 3 && p[1] == seq!['C', 'o', 'n', 'v', 'e', 'x', 'i', 't', 'y', 'A', 'd', 'j', 'u', 's', 't', 'm', 'e', 'n', 't'] ==> identifier_fields(s) == contract_fields(p, QuoteInstrument::ConvexityAdjustment))
            &&& (p.len() >= 3 && p[1] == seq!['S', 'w', 'a', 'p', 't', 'i', 'o', 'n'] ==> identifier_fields(s) == swaption_fields(p))
            &&& (p.len() >= 3 && p[1] == seq!['O', 'u', 't', 'r', 'i', 'g', 'h', 't', 'F', 'o', 'r', 'w', 'a', 'r', 'd'] ==> identifier_fields(s) == fx_fields(p, QuoteInstrument::OutrightForward))
            &&& (p.len() >= 3 && p[1] == seq!['F', 'o', 'r', 'w', 'a', 'r', 'd', 'P', 'o', 'i', 'n', 't', 's'] ==> identifier_fields(s) == fx_fields(p, QuoteInstrument::ForwardPoints))
            &&& (p.len() >= 3 && p[1] == seq!['C', 'a', 'l', 'l'] ==> identifier_fields(s) == option_fields(p, QuoteInstrument::Call))
            &&& (p.len() >= 3 && p[1] == seq!['P', 'u', 't'] ==> identifier_fields(s) == option_fields(p, QuoteInstrument::Put))
        }),
{
    reveal_strlit("OIS");
    reveal_strlit("FixedRateDeposit");
    reveal_strlit("BasisSwap");
    reveal_strlit("CrossCurrencySwap");
    reveal_strlit("CapFloor");
    reveal_strlit("CapletFloorlet");
    reveal_strlit("Future");
    reveal_strlit("ConvexityAdjustment");
    reveal_strlit("Swaption");
    reveal_strlit("OutrightForward");
    reveal_strlit("ForwardPoints");
    reveal_strlit("Call");
    reveal_strlit("Put");
    assert("OIS"@ =~= seq!['O', 'I', 'S']);
    assert("FixedRateDeposit"@ =~= seq!['F', 'i', 'x', 'e', 'd', 'R', 'a', 't', 'e', 'D', 'e', 'p', 'o', 's', 'i', 't']);
    assert("BasisSwap"@ =~= seq!['B', 'a', 's', 'i', 's', 'S', 'w', 'a', 'p']);
    assert("CrossCurrencySwap"@ =~= seq!['C', 'r', 'o', 's', 's', 'C', 'u', 'r', 'r', 'e', 'n', 'c', 'y', 'S', 'w', 'a', 'p']);
    assert("CapFloor"@ =~= seq!['C', 'a', 'p', 'F', 'l', 'o', 'o', 'r']);
    assert("CapletFloorlet"@ =~= seq!['C', 'a', 'p', 'l', 'e', 't', 'F', 'l', 'o', 'o', 'r', 'l', 'e', 't']);
    assert("Future"@ =~= seq!['F', 'u', 't', 'u', 'r', 'e']);
    assert("ConvexityAdjustment"@ =~= seq!['C', 'o', 'n', 'v', 'e', 'x', 'i', 't', 'y', 'A', 'd', 'j', 'u', 's', 't', 'm', 'e', 'n', 't']);
    assert("Swaption"@ =~= seq!['S', 'w', 'a', 'p', 't', 'i', 'o', 'n']);
    assert("OutrightForward"@ =~= seq!['O', 'u', 't', 'r', 'i', 'g', 'h', 't', 'F', 'o', 'r', 'w', 'a', 'r', 'd']);
    assert("ForwardPoints"@ =~= seq!['F', 'o', 'r', 'w', 'a', 'r', 'd', 'P', 'o', 'i', 'n', 't', 's']);
    assert("Call"@ =~= seq!['C', 'a', 'l', 'l']);
    assert("Put"@ =~= seq!['P', 'u', 't']);
    let p = split_on(s, '_');
    if p.len() >= 2 {
        lemma_identifier_order(p);
    }
    assert("OIS"@[0] != "Put"@[0]);
    assert("CapFloor"@[0] != "Swaption"@[0]);
}

/// Whether `s` names an instrument in a quote identifier.
pub fn instrument_tag(s: &str) -> (r: bool)
    ensures
        r == is_instrument_tag(s@),
{
    str_equals(s, "OIS")
        || str_equals(s, "FixedRateDeposit")
        || str_equals(s, "BasisSwap")
        || str_equals(s, "CrossCurrencySwap")
        || str_equals(s, "CapFloor")
        || str_equals(s, "CapletFloorlet")
        || str_equals(s, "Future")
        || str_equals(s, "ConvexityAdjustment")
        || str_equals(s, "Swaption")
        || str_equals(s, "OutrightForward")
        || str_equals(s, "ForwardPoints")
        || str_equals(s, "Call")
        || str_equals(s, "Put")
}

/// What the identifier `s` says of a quote: its segments separated by `_`,
/// at least three; one of the first two names the instrument (the second is
/// looked at first) and the grammar of the others follows from it, the
/// segment before or after the instrument taking the place of the first.
pub open spec fn identifier_fields(s: Seq<char>) -> Result<IdentifierFields, QSError> {
    let p = canonical_segments(split_on(s, '_'));
    if p.len() < 3 {
        Err(QSError::MalformedIdentifier)
    } else if p[1] == "OIS"@ {
        ois_fields(p)
    } else if p[1] == "FixedRateDeposit"@ {
        deposit_fields(p)
    } else if p[1] == "BasisSwap"@ {
        basis_swap_fields(p)
    } else if p[1] == "CrossCurrencySwap"@ {
        cross_currency_swap_fields(p)
    } else if p[1] == "CapFloor"@ {
        cap_floor_fields(p)
    } else if p[1] == "CapletFloorlet"@ {
        caplet_floorlet_fields(p)
    } else if p[1] == "Future"@ {
        contract_fields(p, QuoteInstrument::Future)
    } else if p[1] == "ConvexityAdjustment"@ {
        contract_fields(p, QuoteInstrument::ConvexityAdjustment)
    } else if p[1] == "Swaption"@ {
        swaption_fields(p)
    } else if p[1] == "OutrightForward"@ {
        fx_fields(p, QuoteInstrument::OutrightForward)
    } else if p[1] == "ForwardPoints"@ {
        fx_fields(p, QuoteInstrument::ForwardPoints)
    } else if p[1] == "Call"@ {
        option_fields(p, QuoteInstrument::Call)
    } else if p[1] == "Put"@ {
        option_fields(p, QuoteInstrument::Put)
    } else {
        Err(QSError::UnknownQuoteInstrument)
    }
}

/// Quote details parsed from an identifier, with the strike as written when
/// the identifier carries one (its value is read in the numeric type `T`).
pub struct ParsedIdentifier<T> {
    pub details: QuoteDetails<T>,
    pub strike_text: Option<String>,
}

/// The index key of an optional index.
pub open spec fn opt_key(m: Option<MarketIndex>) -> Option<IndexKey> {
    match m {
        Some(i) => Some(i@),
        None => None,
    }
}

/// The characters of an optional string.
pub open spec fn opt_text(m: Option<String>) -> Option<Seq<char>> {
    match m {
        Some(s) => Some(s@),
        None => None,
    }
}

/// The fields that `p` holds.
pub open spec fn parsed_fields<T>(p: ParsedIdentifier<T>) -> IdentifierFields {
    IdentifierFields {
        instrument: p.details.instrument,
        market_index: opt_key(p.details.market_index),
        secondary_market_index: opt_key(p.details.secondary_market_index),
        currency: p.details.currency,
        pay_currency: p.details.pay_currency,
        receive_currency: p.details.receive_currency,
        tenor: p.details.tenor,
        option_expiry: p.details.option_expiry,
        index_tenor: p.details.index_tenor,
        strike_type: p.details.strike_type,
        strategy: p.details.strategy,
        vol_type: p.details.vol_type,
        contract_code: opt_text(p.details.contract_code),
        strike_text: opt_text(p.strike_text),
    }
}

/// The fields a parse describes are the parsed details' own fields, names
/// taken by their characters.
pub proof fn lemma_parsed_fields<T>(p: ParsedIdentifier<T>)
    ensures
        parsed_fields(p).instrument == p.details.instrument,
        parsed_fields(p).currency == p.details.currency,
        parsed_fields(p).pay_currency == p.details.pay_currency,
        parsed_fields(p).receive_currency == p.details.receive_currency,
        parsed_fields(p).tenor == p.details.tenor,
        parsed_fields(p).option_expiry == p.details.option_expiry,
        parsed_fields(p).index_tenor == p.details.index_tenor,
        parsed_fields(p).strike_type == p.details.strike_type,
        parsed_fields(p).strategy == p.details.strategy,
        parsed_fields(p).vol_type == p.details.vol_type,
        p.details.market_index matches Some(m) ==> parsed_fields(p).market_index == Some(m@),
        p.details.market_index is None ==> parsed_fields(p).market_index is None,
        p.details.secondary_market_index matches Some(m) ==> parsed_fields(p).secondary_market_index == Some(m@),
        p.details.secondary_market_index is None ==> parsed_fields(p).secondary_market_index is None,
        p.details.contract_code matches Some(c) ==> parsed_fields(p).contract_code == Some(c@),
        p.details.contract_code is None ==> parsed_fields(p).contract_code is None,
        p.strike_text matches Some(c) ==> parsed_fields(p).strike_text == Some(c@),
        p.strike_text is None ==> parsed_fields(p).strike_text is None,
{
}

/// `r` is the parse of the identifier `id` that `f` describes: the same
/// error, or details under the identifier `id` with the fields of `f` and
/// no quoted values.
pub open spec fn parsed_as<T>(r: Result<ParsedIdentifier<T>, QSError>, f: Result<IdentifierFields, QSError>, id: Seq<char>) -> bool {
    match f {
        Err(e) => r == Err::<ParsedIdentifier<T>, QSError>(e),
        Ok(x) => r matches Ok(p) && {
            &&& p.details.identifier@ == id
            &&& parsed_fields(p) == x
            &&& p.details.rate is None
            &&& p.details.price is None
            &&& p.details.coupon_rate is None
            &&& p.details.strike is None
            &&& p.details.maturity is None
            &&& p.details.vol_shift is None
        },
    }
}

/// Splits a pair written as six letters (e.g. `EURUSD`) into two currencies.
pub fn parse_fx_pair(pair: &str) -> (r: Result<(Currency, Currency), QSError>)
    ensures
        r == fx_pair_of(pair@),
{
    let n = pair.unicode_len();
    if n < 6 {
        return Err(QSError::MalformedIdentifier);
    }
    let base = match Currency::from_code(pair.substring_char(0, 3)) {
        Ok(c) => c,
        Err(e) => return Err(e),
    };
    let quote = match Currency::from_code(pair.substring_char(3, 6)) {
        Ok(c) => c,
        Err(e) => return Err(e),
    };
    Ok((base, quote))
}

impl<T: Copy> QuoteDetails<T> {
    /// `{CCY}_OIS_{Index}_{Tenor}` — e.g. `USD_OIS_SOFR_1Y`.
    pub fn parse_ois(id: &str, parts: &Vec<&str>) -> (r: Result<ParsedIdentifier<T>, QSError>)
        ensures
            parsed_as(r, ois_fields(segment_views(parts@)), id@),
    {
        if parts.len() < 4 {
            return Err(QSError::MalformedIdentifier);
        }
        let currency = match Currency::from_code(parts[0]) {
            Ok(c) => c,
            Err(e) => return Err(e),
        };
        let index = match MarketIndex::parse(parts[2]) {
            Ok(i) => i,
            Err(e) => return Err(e),
        };
        let tenor = match parse_tenor(parts[3]) {
            Ok(t) => t,
            Err(e) => return Err(e),
        };
        let details = QuoteDetails {
            market_index: Some(index),
            currency: Some(currency),
            tenor: Some(tenor),
            ..QuoteDetails::new(id.to_owned(), QuoteInstrument::OIS)
        };
        Ok(ParsedIdentifier { details, strike_text: None })
    }

    /// `{CCY}_FixedRateDeposit_{Index}_{Tenor}` — e.g. `USD_FixedRateDeposit_SOFR_6M`.
    pub fn parse_fixed_rate_deposit(id: &str, parts: &Vec<&str>) -> (r: Result<ParsedIdentifier<T>, QSError>)
        ensures
            parsed_as(r, deposit_fields(segment_views(parts@)), id@),
    {
        if parts.len() < 4 {
            return Err(QSError::MalformedIdentifier);
        }
        let currency = match Currency::from_code(parts[0]) {
            Ok(c) => c,
            Err(e) => return Err(e),
        };
        let index = match MarketIndex::parse(parts[2]) {
            Ok(i) => i,
            Err(e) => return Err(e),
        };
        let tenor = match parse_tenor(parts[3]) {
            Ok(t) => t,
            Err(e) => return Err(e),
        };
        let details = QuoteDetails {
            market_index: Some(index),
            currency: Some(currency),
            tenor: Some(tenor),
            ..QuoteDetails::new(id.to_owned(), QuoteInstrument::FixedRateDeposit)
        };
        Ok(ParsedIdentifier { details, strike_text: None })
    }

    /// `{CCY}_BasisSwap_{PayIndex}_{RecvIndex}_{Tenor}` — e.g. `USD_BasisSwap_SOFR_TermSOFR3m_1Y`.
    pub fn parse_basis_swap(id: &str, parts: &Vec<&str>) -> (r: Result<ParsedIdentifier<T>, QSError>)
        ensures
            parsed_as(r, basis_swap_fields(segment_views(parts@)), id@),
    {
        if parts.len() < 5 {
            return Err(QSError::MalformedIdentifier);
        }
        let currency = match Currency::from_code(parts[0]) {
            Ok(c) => c,
            Err(e) => return Err(e),
        };
        let pay_index = match MarketIndex::parse(parts[2]) {
            Ok(i) => i,
            Err(e) => return Err(e),
        };
        let recv_index = match MarketIndex::parse(parts[3]) {
            Ok(i) => i,
            Err(e) => return Err(e),
        };
        let tenor = match parse_tenor(parts[4]) {
            Ok(t) => t,
            Err(e) => return Err(e),
        };
        let details = QuoteDetails {
            market_index: Some(pay_index),
            currency: Some(currency),
            secondary_market_index: Some(recv_index),
            tenor: Some(tenor),
            ..QuoteDetails::new(id.to_owned(), QuoteInstrument::BasisSwap)
        };
        Ok(ParsedIdentifier { details, strike_text: None })
    }

    /// `{CCY}_CrossCurrencySwap_{DomIndex}_{ForIndex}_{ForeignCCY}_{Tenor}` — e.g.
    /// `USD_CrossCurrencySwap_SOFR_ICP_CLP_1Y`.
    pub fn parse_cross_currency_swap(id: &str, parts: &Vec<&str>) -> (r: Result<ParsedIdentifier<T>, QSError>)
        ensures
            parsed_as(r, cross_currency_swap_fields(segment_views(parts@)), id@),
    {
        if parts.len() < 6 {
            return Err(QSError::MalformedIdentifier);
        }
        let domestic = match Currency::from_code(parts[0]) {
            Ok(c) => c,
            Err(e) => return Err(e),
        };
        let dom_index = match MarketIndex::parse(parts[2]) {
            Ok(i) => i,
            Err(e) => return Err(e),
        };
        let for_index = match MarketIndex::parse(parts[3]) {
            Ok(i) => i,
            Err(e) => return Err(e),
        };
        let foreign = match Currency::from_code(parts[4]) {
            Ok(c) => c,
            Err(e) => return Err(e),
        };
        let tenor = match parse_tenor(parts[5]) {
            Ok(t) => t,
            Err(e) => return Err(e),
        };
        let details = QuoteDetails {
            market_index: Some(dom_index),
            currency: Some(domestic),
            pay_currency: Some(domestic),
            receive_currency: Some(foreign),
            secondary_market_index: Some(for_index),
            tenor: Some(tenor),
            ..QuoteDetails::new(id.to_owned(), QuoteInstrument::CrossCurrencySwap)
        };
        Ok(ParsedIdentifier { details, strike_text: None })
    }

    /// `{CCY}_Future_{Index}_{IMMCode}` or `{CCY}_ConvexityAdjustment_{Index}_{IMMCode}`
    /// — e.g. `USD_Future_SOFR_H6`.
    fn parse_contract(id: &str, parts: &Vec<&str>, instrument: QuoteInstrument) -> (r: Result<ParsedIdentifier<T>, QSError>)
        ensures
            parsed_as(r, contract_fields(segment_views(parts@), instrument), id@),
    {
        if parts.len() < 4 {
            return Err(QSError::MalformedIdentifier);
        }
        let currency = match Currency::from_code(parts[0]) {
            Ok(c) => c,
            Err(e) => return Err(e),
        };
        let index = match MarketIndex::parse(parts[2]) {
            Ok(i) => i,
            Err(e) => return Err(e),
        };
        let details = QuoteDetails {
            market_index: Some(index),
            currency: Some(currency),
            contract_code: Some(parts[3].to_owned()),
            ..QuoteDetails::new(id.to_owned(), instrument)
        };
        Ok(ParsedIdentifier { details, strike_text: None })
    }

    /// `{CCY}_Future_{Index}_{IMMCode}` — e.g. `USD_Future_SOFR_H6`.
    pub fn parse_future(id: &str, parts: &Vec<&str>) -> (r: Result<ParsedIdentifier<T>, QSError>)
        ensures
            parsed_as(r, contract_fields(segment_views(parts@), QuoteInstrument::Future), id@),
    {
        Self::parse_contract(id, parts, QuoteInstrument::Future)
    }

    /// `{CCY}_ConvexityAdjustment_{Index}_{IMMCode}` — e.g. `USD_ConvexityAdjustment_SOFR_H6`.
    pub fn parse_convexity_adjustment(id: &str, parts: &Vec<&str>) -> (r: Result<ParsedIdentifier<T>, QSError>)
        ensures
            parsed_as(r, contract_fields(segment_views(parts@), QuoteInstrument::ConvexityAdjustment), id@),
    {
        Self::parse_contract(id, parts, QuoteInstrument::ConvexityAdjustment)
    }

    /// `{CCYPAIR}_OutrightForward_{Tenor}` or `{CCYPAIR}_ForwardPoints_{Tenor}`.
    fn parse_fx(id: &str, parts: &Vec<&str>, instrument: QuoteInstrument) -> (r: Result<ParsedIdentifier<T>, QSError>)
        ensures
            parsed_as(r, fx_fields(segment_views(parts@), instrument), id@),
    {
        if parts.len() < 3 {
            return Err(QSError::MalformedIdentifier);
        }
        let (base, quote) = match parse_fx_pair(parts[0]) {
            Ok(p) => p,
            Err(e) => return Err(e),
        };
        let tenor = match parse_tenor(parts[2]) {
            Ok(t) => t,
            Err(e) => return Err(e),
        };
        let details = QuoteDetails {
            pay_currency: Some(base),
            receive_currency: Some(quote),
            tenor: Some(tenor),
            ..QuoteDetails::new(id.to_owned(), instrument)
        };
        Ok(ParsedIdentifier { details, strike_text: None })
    }

    /// `{CCYPAIR}_OutrightForward_{Tenor}` — e.g. `EURUSD_OutrightForward_1M`.
    pub fn parse_outright_forward(id: &str, parts: &Vec<&str>) -> (r: Result<ParsedIdentifier<T>, QSError>)
        ensures
            parsed_as(r, fx_fields(segment_views(parts@), QuoteInstrument::OutrightForward), id@),
    {
        Self::parse_fx(id, parts, QuoteInstrument::OutrightForward)
    }

    /// `{CCYPAIR}_ForwardPoints_{Tenor}` — e.g. `EURUSD_ForwardPoints_1M`.
    pub fn parse_forward_points(id: &str, parts: &Vec<&str>) -> (r: Result<ParsedIdentifier<T>, QSError>)
        ensures
            parsed_as(r, fx_fields(segment_views(parts@), QuoteInstrument::ForwardPoints), id@),
    {
        Self::parse_fx(id, parts, QuoteInstrument::ForwardPoints)
    }

    /// `{CCY}_Call_{Index}_{Expiry}_{Strike}` or `{CCY}_Put_{Index}_{Expiry}_{Strike}`.
    fn parse_option(id: &str, parts: &Vec<&str>, instrument: QuoteInstrument) -> (r: Result<ParsedIdentifier<T>, QSError>)
        ensures
            parsed_as(r, option_fields(segment_views(parts@), instrument), id@),
    {
        if parts.len() < 5 {
            return Err(QSError::MalformedIdentifier);
        }
        let currency = match Currency::from_code(parts[0]) {
            Ok(c) => c,
            Err(e) => return Err(e),
        };
        let index = match MarketIndex::parse(parts[2]) {
            Ok(i) => i,
            Err(e) => return Err(e),
        };
        let tenor = match parse_tenor(parts[3]) {
            Ok(t) => t,
            Err(e) => return Err(e),
        };
        if !is_float(parts[4]) {
            return Err(QSError::InvalidStrike);
        }
        let details = QuoteDetails {
            market_index: Some(index),
            currency: Some(currency),
            tenor: Some(tenor),
            ..QuoteDetails::new(id.to_owned(), instrument)
        };
        Ok(ParsedIdentifier { details, strike_text: Some(parts[4].to_owned()) })
    }

    /// `{CCY}_Call_{Index}_{Expiry}_{Strike}` — e.g. `USD_Call_SPX_1Y_5000`.
    pub fn parse_call(id: &str, parts: &Vec<&str>) -> (r: Result<ParsedIdentifier<T>, QSError>)
        ensures
            parsed_as(r, option_fields(segment_views(parts@), QuoteInstrument::Call), id@),
    {
        Self::parse_option(id, parts, QuoteInstrument::Call)
    }

    /// `{CCY}_Put_{Index}_{Expiry}_{Strike}` — e.g. `USD_Put_SPX_1Y_4500`.
    pub fn parse_put(id: &str, parts: &Vec<&str>) -> (r: Result<ParsedIdentifier<T>, QSError>)
        ensures
            parsed_as(r, option_fields(segment_views(parts@), QuoteInstrument::Put), id@),
    {
        Self::parse_option(id, parts, QuoteInstrument::Put)
    }
    /// `{CCY}_CapFloor_{Index}_{Tenor}_{StrikeType}_{VolType}` without strike, or
    /// `{CCY}_CapFloor_{Index}_{Tenor}_{StrikeType}_{Strike}_{VolType}` with one —
    /// e.g. `USD_CapFloor_SOFR_1Y_Absolute_Black`.
    pub fn parse_cap_floor(id: &str, parts: &Vec<&str>) -> (r: Result<ParsedIdentifier<T>, QSError>)
        ensures
            parsed_as(r, cap_floor_fields(segment_views(parts@)), id@),
    {
        if parts.len() < 6 {
            return Err(QSError::MalformedIdentifier);
        }
        let currency = match Currency::from_code(parts[0]) {
            Ok(c) => c,
            Err(e) => return Err(e),
        };
        let index = match MarketIndex::parse(parts[2]) {
            Ok(i) => i,
            Err(e) => return Err(e),
        };
        let tenor = match parse_tenor(parts[3]) {
            Ok(t) => t,
            Err(e) => return Err(e),
        };
        let strike_type = match StrikeType::parse(parts[4]) {
            Ok(t) => t,
            Err(e) => return Err(e),
        };
        let has_strike = is_float(parts[5]);
        let vol_idx: usize = if has_strike { 6 } else { 5 };
        if vol_idx >= parts.len() {
            return Err(QSError::MalformedIdentifier);
        }
        let vol_type = match VolatilityType::parse(parts[vol_idx]) {
            Ok(v) => v,
            Err(e) => return Err(e),
        };
        let strike_text = if has_strike { Some(parts[5].to_owned()) } else { None };
        let details = QuoteDetails {
            market_index: Some(index),
            currency: Some(currency),
            tenor: Some(tenor),
            strike_type: Some(strike_type),
            vol_type: Some(vol_type),
            ..QuoteDetails::new(id.to_owned(), QuoteInstrument::CapFloor)
        };
        Ok(ParsedIdentifier { details, strike_text })
    }

    /// `{CCY}_CapletFloorlet_{Index}_{IdxTenor}_{Expiry}_{StrikeType}_{Strike}_{Strategy}_{VolType}`,
    /// or without the strike — e.g. `USD_CapletFloorlet_TermSOFR3m_3M_3M_Absolute_0.010_Straddle_Black`.
    pub fn parse_caplet_floorlet(id: &str, parts: &Vec<&str>) -> (r: Result<ParsedIdentifier<T>, QSError>)
        ensures
            parsed_as(r, caplet_floorlet_fields(segment_views(parts@)), id@),
    {
        if parts.len() < 8 {
            return Err(QSError::MalformedIdentifier);
        }
        let currency = match Currency::from_code(parts[0]) {
            Ok(c) => c,
            Err(e) => return Err(e),
        };
        let index = match MarketIndex::parse(parts[2]) {
            Ok(i) => i,
            Err(e) => return Err(e),
        };
        let index_tenor = match parse_tenor(parts[3]) {
            Ok(t) => t,
            Err(e) => return Err(e),
        };
        let option_expiry = match parse_tenor(parts[4]) {
            Ok(t) => t,
            Err(e) => return Err(e),
        };
        let strike_type = match StrikeType::parse(parts[5]) {
            Ok(t) => t,
            Err(e) => return Err(e),
        };
        let has_strike = is_float(parts[6]);
        let next_idx: usize = if has_strike { 7 } else { 6 };
        let strategy = match OptionStrategy::parse(parts[next_idx]) {
            Ok(st) => st,
            Err(e) => return Err(e),
        };
        if next_idx + 1 >= parts.len() {
            return Err(QSError::MalformedIdentifier);
        }
        let vol_type = match VolatilityType::parse(parts[next_idx + 1]) {
            Ok(v) => v,
            Err(e) => return Err(e),
        };
        let strike_text = if has_strike { Some(parts[6].to_owned()) } else { None };
        let details = QuoteDetails {
            market_index: Some(index),
            currency: Some(currency),
            index_tenor: Some(index_tenor),
            option_expiry: Some(option_expiry),
            strike_type: Some(strike_type),
            strategy: Some(strategy),
            vol_type: Some(vol_type),
            ..QuoteDetails::new(id.to_owned(), QuoteInstrument::CapletFloorlet)
        };
        Ok(ParsedIdentifier { details, strike_text })
    }

    /// `{CCY}_Swaption_{Index}_{Expiry}_{SwapTenor}_{StrikeType}_{VolType}` without strike,
    /// or with the strike before the volatility type — e.g. `USD_Swaption_SOFR_3M_2Y_Absolute_Black`.
    pub fn parse_swaption(id: &str, parts: &Vec<&str>) -> (r: Result<ParsedIdentifier<T>, QSError>)
        ensures
            parsed_as(r, swaption_fields(segment_views(parts@)), id@),
    {
        if parts.len() < 7 {
            return Err(QSError::MalformedIdentifier);
        }
        let currency = match Currency::from_code(parts[0]) {
            Ok(c) => c,
            Err(e) => return Err(e),
        };
        let index = match MarketIndex::parse(parts[2]) {
            Ok(i) => i,
            Err(e) => return Err(e),
        };
        let option_expiry = match parse_tenor(parts[3]) {
            Ok(t) => t,
            Err(e) => return Err(e),
        };
        let swap_tenor = match parse_tenor(parts[4]) {
            Ok(t) => t,
            Err(e) => return Err(e),
        };
        let strike_type = match StrikeType::parse(parts[5]) {
            Ok(t) => t,
            Err(e) => return Err(e),
        };
        let has_strike = is_float(parts[6]);
        let vol_idx: usize = if has_strike { 7 } else { 6 };
        if vol_idx >= parts.len() {
            return Err(QSError::MalformedIdentifier);
        }
        let vol_type = match VolatilityType::parse(parts[vol_idx]) {
            Ok(v) => v,
            Err(e) => return Err(e),
        };
        let strike_text = if has_strike { Some(parts[6].to_owned()) } else { None };
        let details = QuoteDetails {
            market_index: Some(index),
            currency: Some(currency),
            option_expiry: Some(option_expiry),
            tenor: Some(swap_tenor),
            strike_type: Some(strike_type),
            vol_type: Some(vol_type),
            ..QuoteDetails::new(id.to_owned(), QuoteInstrument::Swaption)
        };
        Ok(ParsedIdentifier { details, strike_text })
    }

    /// Parses a quote identifier (segments separated by `_`) into quote
    /// details; the second segment, or else the first, names the instrument
    /// and fixes the grammar of the others, so that `USD_OIS_SOFR_1Y` and
    /// `OIS_USD_SOFR_1Y` give the same details under their own identifiers.
    pub fn parse(s: &str) -> (r: Result<ParsedIdentifier<T>, QSError>)
        ensures
            parsed_as(r, identifier_fields(s@), s@),
    {
        let mut parts = split_underscores(s);
        if parts.len() < 3 {
            return Err(QSError::MalformedIdentifier);
        }
        if !instrument_tag(parts[1]) && instrument_tag(parts[0]) {
            let first = parts[0];
            let second = parts[1];
            let ghost before = segment_views(parts@);
            parts.set(0, second);
            parts.set(1, first);
            proof {
                assert(segment_views(parts@) =~= before.update(0, before[1]).update(1, before[0]));
            }
        }
        assert(segment_views(parts@) == canonical_segments(split_on(s@, '_')));
        let tag = parts[1];
        if str_equals(tag, "OIS") {
            Self::parse_ois(s, &parts)
        } else if str_equals(tag, "FixedRateDeposit") {
            Self::parse_fixed_rate_deposit(s, &parts)
        } else if str_equals(tag, "BasisSwap") {
            Self::parse_basis_swap(s, &parts)
        } else if str_equals(tag, "CrossCurrencySwap") {
            Self::parse_cross_currency_swap(s, &parts)
        } else if str_equals(tag, "CapFloor") {
            Self::parse_cap_floor(s, &parts)
        } else if str_equals(tag, "CapletFloorlet") {
            Self::parse_caplet_floorlet(s, &parts)
        } else if str_equals(tag, "Future") {
            Self::parse_future(s, &parts)
        } else if str_equals(tag, "ConvexityAdjustment") {
            Self::parse_convexity_adjustment(s, &parts)
        } else if str_equals(tag, "Swaption") {
            Self::parse_swaption(s, &parts)
        } else if str_equals(tag, "OutrightForward") {
            Self::parse_outright_forward(s, &parts)
        } else if str_equals(tag, "ForwardPoints") {
            Self::parse_forward_points(s, &parts)
        } else if str_equals(tag, "Call") {
            Self::parse_call(s, &parts)
        } else if str_equals(tag, "Put") {
            Self::parse_put(s, &parts)
        } else {
            Err(QSError::UnknownQuoteInstrument)
        }
    }
}

} // verus!
