//! ISO currencies and their three-letter codes.
use vstd::prelude::*;

use crate::errors::QSError;
use crate::text::str_equals;

verus! {

/// Currencies in which instruments, legs and collateral are denominated.
#[derive(Clone, Copy, Debug, PartialEq, Eq, Hash, Structural)]
pub enum Currency {
    USD,
    EUR,
    GBP,
    JPY,
    CHF,
    CAD,
    AUD,
    CNY,
    BRL,
    MXN,
    CLP,
    CLF,
    COP,
    PEN,
}

/// The three-letter ISO code of a currency.
pub open spec fn currency_code(c: Currency) -> Seq<char> {
    match c {
        Currency::USD => "USD"@,
        Currency::EUR => "EUR"@,
        Currency::GBP => "GBP"@,
        Currency::JPY => "JPY"@,
        Currency::CHF => "CHF"@,
        Currency::CAD => "CAD"@,
        Currency::AUD => "AUD"@,
        Currency::CNY => "CNY"@,
        Currency::BRL => "BRL"@,
        Currency::MXN => "MXN"@,
        Currency::CLP => "CLP"@,
        Currency::CLF => "CLF"@,
        Currency::COP => "COP"@,
        Currency::PEN => "PEN"@,
    }
}

/// The currency whose code is `s`, if any.
pub open spec fn currency_from_code(s: Seq<char>) -> Option<Currency> {
    if s == "USD"@ {
        Some(Currency::USD)
    } else if s == "EUR"@ {
        Some(Currency::EUR)
    } else if s == "GBP"@ {
        Some(Currency::GBP)
    } else if s == "JPY"@ {
        Some(Currency::JPY)
    } else if s == "CHF"@ {
        Some(Currency::CHF)
    } else if s == "CAD"@ {
        Some(Currency::CAD)
    } else if s == "AUD"@ {
        Some(Currency::AUD)
    } else if s == "CNY"@ {
        Some(Currency::CNY)
    } else if s == "BRL"@ {
        Some(Currency::BRL)
    } else if s == "MXN"@ {
        Some(Currency::MXN)
    } else if s == "CLP"@ {
        Some(Currency::CLP)
    } else if s == "CLF"@ {
        Some(Currency::CLF)
    } else if s == "COP"@ {
        Some(Currency::COP)
    } else if s == "PEN"@ {
        Some(Currency::PEN)
    } else {
        None
    }
}

/// The character contents of every currency code, made known to the solver.
pub proof fn reveal_currency_codes()
    ensures
        "USD"@ == seq!['U', 'S', 'D'],
        "EUR"@ == seq!['E', 'U', 'R'],
        "GBP"@ == seq!['G', 'B', 'P'],
        "JPY"@ == seq!['J', 'P', 'Y'],
        "CHF"@ == seq!['C', 'H', 'F'],
        "CAD"@ == seq!['C', 'A', 'D'],
        "AUD"@ == seq!['A', 'U', 'D'],
        "CNY"@ == seq!['C', 'N', 'Y'],
        "BRL"@ == seq!['B', 'R', 'L'],
        "MXN"@ == seq!['M', 'X', 'N'],
        "CLP"@ == seq!['C', 'L', 'P'],
        "CLF"@ == seq!['C', 'L', 'F'],
        "COP"@ == seq!['C', 'O', 'P'],
        "PEN"@ == seq!['P', 'E', 'N'],
{
    reveal_strlit("USD");
    reveal_strlit("EUR");
    reveal_strlit("GBP");
    reveal_strlit("JPY");
    reveal_strlit("CHF");
    reveal_strlit("CAD");
    reveal_strlit("AUD");
    reveal_strlit("CNY");
    reveal_strlit("BRL");
    reveal_strlit("MXN");
    reveal_strlit("CLP");
    reveal_strlit("CLF");
    reveal_strlit("COP");
    reveal_strlit("PEN");
    assert("USD"@ =~= seq!['U', 'S', 'D']);
    assert("EUR"@ =~= seq!['E', 'U', 'R']);
    assert("GBP"@ =~= seq!['G', 'B', 'P']);
    assert("JPY"@ =~= seq!['J', 'P', 'Y']);
    assert("CHF"@ =~= seq!['C', 'H', 'F']);
    assert("CAD"@ =~= seq!['C', 'A', 'D']);
    assert("AUD"@ =~= seq!['A', 'U', 'D']);
    assert("CNY"@ =~= seq!['C', 'N', 'Y']);
    assert("BRL"@ =~= seq!['B', 'R', 'L']);
    assert("MXN"@ =~= seq!['M', 'X', 'N']);
    assert("CLP"@ =~= seq!['C', 'L', 'P']);
    assert("CLF"@ =~= seq!['C', 'L', 'F']);
    assert("COP"@ =~= seq!['C', 'O', 'P']);
    assert("PEN"@ =~= seq!['P', 'E', 'N']);
}

/// Every currency code is three characters long.
pub proof fn lemma_currency_code_len(c: Currency)
    ensures
        currency_code(c).len() == 3,
{
    reveal_currency_codes();
}

/// Reading back the code of a currency gives that currency.
pub proof fn lemma_currency_code_roundtrip(c: Currency)
    ensures
        currency_from_code(currency_code(c)) == Some(c),
{
    reveal_currency_codes();
}

/// Every currency is read from its ISO letters.
pub proof fn lemma_currency_letters()
    ensures
        currency_from_code(seq!['U', 'S', 'D']) == Some(Currency::USD),
        currency_from_code(seq!['E', 'U', 'R']) == Some(Currency::EUR),
        currency_from_code(seq!['G', 'B', 'P']) == Some(Currency::GBP),
        currency_from_code(seq!['J', 'P', 'Y']) == Some(Currency::JPY),
        currency_from_code(seq!['C', 'H', 'F']) == Some(Currency::CHF),
        currency_from_code(seq!['C', 'A', 'D']) == Some(Currency::CAD),
        currency_from_code(seq!['A', 'U', 'D']) == Some(Currency::AUD),
        currency_from_code(seq!['C', 'N', 'Y']) == Some(Currency::CNY),
        currency_from_code(seq!['B', 'R', 'L']) == Some(Currency::BRL),
        currency_from_code(seq!['M', 'X', 'N']) == Some(Currency::MXN),
        currency_from_code(seq!['C', 'L', 'P']) == Some(Currency::CLP),
        currency_from_code(seq!['C', 'L', 'F']) == Some(Currency::CLF),
        currency_from_code(seq!['C', 'O', 'P']) == Some(Currency::COP),
        currency_from_code(seq!['P', 'E', 'N']) == Some(Currency::PEN),
{
    reveal_currency_codes();
}

/// A code that reads as a currency is that currency's code.
pub proof fn lemma_code_of_read(s: Seq<char>)
    ensures
        currency_from_code(s) matches Some(c) ==> currency_code(c) == s,
{
}

impl Currency {
    /// The three-letter ISO code of the currency.
    pub fn code(&self) -> (r: &'static str)
        ensures
            r@ == currency_code(*self),
    {
        match self {
            Currency::USD => "USD",
            Currency::EUR => "EUR",
            Currency::GBP => "GBP",
            Currency::JPY => "JPY",
            Currency::CHF => "CHF",
            Currency::CAD => "CAD",
            Currency::AUD => "AUD",
            Currency::CNY => "CNY",
            Currency::BRL => "BRL",
            Currency::MXN => "MXN",
            Currency::CLP => "CLP",
            Currency::CLF => "CLF",
            Currency::COP => "COP",
            Currency::PEN => "PEN",
        }
    }

    /// Parses a three-letter ISO code.
    pub fn from_code(s: &str) -> (r: Result<Currency, QSError>)
        ensures
            currency_from_code(s@) matches Some(c) ==> r == Ok::<Currency, QSError>(c),
            currency_from_code(s@) is None ==> r == Err::<Currency, QSError>(QSError::UnknownCurrency),
    {
        if str_equals(s, "USD") {
            Ok(Currency::USD)
        } else if str_equals(s, "EUR") {
            Ok(Currency::EUR)
        } else if str_equals(s, "GBP") {
            Ok(Currency::GBP)
        } else if str_equals(s, "JPY") {
            Ok(Currency::JPY)
        } else if str_equals(s, "CHF") {
            Ok(Currency::CHF)
        } else if str_equals(s, "CAD") {
            Ok(Currency::CAD)
        } else if str_equals(s, "AUD") {
            Ok(Currency::AUD)
        } else if str_equals(s, "CNY") {
            Ok(Currency::CNY)
        } else if str_equals(s, "BRL") {
            Ok(Currency::BRL)
        } else if str_equals(s, "MXN") {
            Ok(Currency::MXN)
        } else if str_equals(s, "CLP") {
            Ok(Currency::CLP)
        } else if str_equals(s, "CLF") {
            Ok(Currency::CLF)
        } else if str_equals(s, "COP") {
            Ok(Currency::COP)
        } else if str_equals(s, "PEN") {
            Ok(Currency::PEN)
        } else {
            Err(QSError::UnknownCurrency)
        }
    }
}

} // verus!
