//! Money: amounts of a currency ([Commodity]), and currencies
//! ([Currency]) named by a short code ([CurrencyCode]).

use vstd::prelude::*;
use vstd::string::StringSliceAdditionalSpecFns;
use vstd::string::StrSliceExecFns;
use vstd::utf8::encode_utf8;
use crate::search::{first_match, lemma_first_match};
use crate::text::push_str;
use crate::decimal::{Decimal, decimal_text, exact_sum, exact_difference, checked_sum, checked_difference, checked_product, checked_quotient, parsed_decimal, parts_lt, parts_eq};

verus! {

/// The largest number of bytes in a currency code.
pub const CURRENCY_CODE_LENGTH: usize = 8;

/// A fixed capacity string (an `arrayvec::ArrayString` of eight bytes)
/// that holds a currency code. The string is held in a private field of a
/// struct hidden from Verus, because `arrayvec::ArrayString` cannot be
/// declared to Verus: its parameter is bound by arrayvec's `Array` trait.
/// What it holds is named by [code_chars].
#[verifier::external_body]
#[derive(Debug, Copy, PartialEq, Eq, Hash)]
pub struct CurrencyCodeArray {
    array: arrayvec::ArrayString<[u8; 8]>,
}

impl Clone for CurrencyCodeArray {
    fn clone(&self) -> (r: Self)
        ensures
            r == *self,
    {
        *self
    }
}

/// The characters held by a currency code array.
pub uninterp spec fn code_chars(code: CurrencyCodeArray) -> Seq<char>;

/// Calls `arrayvec::ArrayString::from`, which copies the string when its
/// bytes fit in the capacity of eight, and fails otherwise.
#[verifier::external_body]
fn code_array_from(s: &str) -> (r: Option<CurrencyCodeArray>)
    ensures
        r is Some <==> s.spec_bytes().len() <= 8,
        r matches Some(a) ==> code_chars(a) == s@,
{
    arrayvec::ArrayString::<[u8; 8]>::from(s).ok().map(|array| CurrencyCodeArray { array })
}

/// Compares two code arrays with `==`, which compares the strings.
#[verifier::external_body]
fn code_array_eq(a: &CurrencyCodeArray, b: &CurrencyCodeArray) -> (r: bool)
    ensures
        r == (code_chars(*a) == code_chars(*b)),
{
    a.array == b.array
}

/// Copies the string held by a code array with `ArrayString::as_str`.
#[verifier::external_body]
fn code_array_string(a: &CurrencyCodeArray) -> (r: String)
    ensures
        r@ == code_chars(*a),
{
    a.array.as_str().to_string()
}

/// The name that `iso4217::alpha3` gives the currency with this alpha3 code,
/// if any.
pub uninterp spec fn iso4217_name(alpha3: Seq<char>) -> Option<Seq<char>>;

/// Calls `iso4217::alpha3`, and copies the name of the currency found.
#[verifier::external_body]
fn iso4217_lookup_name(alpha3: &str) -> (r: Option<String>)
    ensures
        r is Some <==> iso4217_name(alpha3@) is Some,
        r matches Some(name) ==> name@ == iso4217_name(alpha3@)->0,
{
    iso4217::alpha3(alpha3).map(|c| c.name.to_string())
}

/// Calls `iso4217::all`, and copies the alpha3 code and name of each entry
/// of its table, in order. Every alpha3 code there is three ASCII letters
/// and is found by `iso4217::alpha3` (which returns the first entry of the
/// table with the code), so the first entry of a code has the name that
/// `iso4217::alpha3` gives; every code that `iso4217::alpha3` finds is
/// in the table; and no code is in the table twice (`codes.rs` lists each
/// of its 155 entries under its own code).
#[verifier::external_body]
fn iso4217_table() -> (r: Vec<(String, String)>)
    ensures
        forall|i: int, j: int| 0 <= i < j < r.len() ==> #[trigger] r[i].0@ != #[trigger] r[j].0@,
        forall|i: int| 0 <= i < r.len() ==> #[trigger] r[i].0@.len() == 3 && vstd::utf8::is_ascii_chars(r[i].0@)
            && iso4217_name(r[i].0@) is Some,
        forall|i: int|
            0 <= i < r.len() && (forall|j: int| 0 <= j < i ==> r[j].0@ != #[trigger] r[i].0@) ==> iso4217_name(r[i].0@)
                == Some(r[i].1@),
        forall|code: Seq<char>| #[trigger] iso4217_name(code) is Some ==> exists|i: int| 0 <= i < r.len() && #[trigger] r[i].0@ == code,
{
    iso4217::all().iter().map(|c| (c.alpha3.to_string(), c.name.to_string())).collect()
}

/// Errors in operations on currencies and commodities.
#[derive(Debug, Clone, PartialEq)]
pub enum CurrencyError {
    /// Two commodities of different currencies were combined.
    IncompatableCommodity {
        this_commodity: Commodity,
        other_commodity: Commodity,
        reason: String,
    },
    /// A currency code longer than [CURRENCY_CODE_LENGTH] bytes.
    TooLongCurrencyCode(String),
    /// An alpha3 code that is not in the ISO 4217 table.
    InvalidISO4217Alpha3(String),
    /// A string that is not the written form of a commodity.
    InvalidCommodityString(String),
}

/// The code (identity) of a [Currency].
#[derive(Debug, Clone, Copy, PartialEq, Eq, Hash)]
pub enum CurrencyCode {
    /// A code of at most [CURRENCY_CODE_LENGTH] bytes.
    Array(CurrencyCodeArray),
    /// The degenerate common currency, used for sums over several currencies.
    Common,
}

/// A currency code seen as its characters; `None` for the common currency.
impl View for CurrencyCode {
    type V = Option<Seq<char>>;

    open spec fn view(&self) -> Option<Seq<char>> {
        match self {
            CurrencyCode::Array(a) => Some(code_chars(*a)),
            CurrencyCode::Common => None,
        }
    }
}

/// How a code is written out: its characters, or `Common Currency`.
pub open spec fn code_text(code: CurrencyCode) -> Seq<char> {
    match code@ {
        Some(chars) => chars,
        None => "Common Currency"@,
    }
}

impl CurrencyCode {
    /// The code with these characters; an error when it is longer than
    /// [CURRENCY_CODE_LENGTH] bytes.
    pub fn from_str(code: &str) -> (r: Result<CurrencyCode, CurrencyError>)
        ensures
            code.spec_bytes().len() <= CURRENCY_CODE_LENGTH ==> (r matches Ok(c) && c@ == Some(code@)),
            code.spec_bytes().len() > CURRENCY_CODE_LENGTH ==> (r matches Err(CurrencyError::TooLongCurrencyCode(s)) && s@ == code@),
    {
        if code.as_bytes().len() > CURRENCY_CODE_LENGTH {
            return Err(CurrencyError::TooLongCurrencyCode(code.to_owned()));
        }
        Ok(CurrencyCode::Array(code_array_from(code).unwrap()))
    }

    /// Both codes are the same (the derived `==`).
    pub fn same_as(&self, other: &CurrencyCode) -> (b: bool)
        ensures
            b == (self@ == other@),
    {
        match (self, other) {
            (CurrencyCode::Array(a), CurrencyCode::Array(b)) => code_array_eq(a, b),
            (CurrencyCode::Common, CurrencyCode::Common) => true,
            _ => false,
        }
    }

    /// The code written out: its characters, or `Common Currency`.
    pub fn to_display_string(&self) -> (s: String)
        ensures
            s@ == code_text(*self),
    {
        match self {
            CurrencyCode::Array(a) => code_array_string(a),
            CurrencyCode::Common => "Common Currency".to_owned(),
        }
    }

    /// The string `s` equals this code (`&str == CurrencyCode`): never for
    /// the common currency, and for a code array when `s` fits in one and
    /// holds the same characters.
    pub fn str_eq(s: &str, code: &CurrencyCode) -> (b: bool)
        ensures
            b == (s.spec_bytes().len() <= CURRENCY_CODE_LENGTH && code@ == Some(s@)),
    {
        match code_array_from(s) {
            Some(self_as_code) => match code {
                CurrencyCode::Array(array) => code_array_eq(&self_as_code, array),
                CurrencyCode::Common => false,
            },
            None => false,
        }
    }
}

/// A type of currency held in a [Commodity].
#[derive(Debug, Clone)]
pub struct Currency {
    /// The code of this currency.
    pub code: CurrencyCode,
    /// The human readable name of this currency.
    pub name: Option<String>,
}

impl Currency {
    /// A currency with this code and name.
    pub fn new(code: CurrencyCode, name: Option<String>) -> (c: Currency)
        ensures
            c.code == code,
            c.name == name,
    {
        Currency { code, name }
    }

    /// The common currency.
    pub fn common() -> (c: Currency)
        ensures
            c.code == CurrencyCode::Common,
            c.name matches Some(n) && n@ == "Common"@,
    {
        Currency { code: CurrencyCode::Common, name: Some("Common".to_owned()) }
    }

    /// A currency from a code and a name; an empty name gives no name.
    pub fn from_str(code: &str, name: &str) -> (r: Result<Currency, CurrencyError>)
        ensures
            code.spec_bytes().len() <= CURRENCY_CODE_LENGTH ==> (r matches Ok(c) && c.code@ == Some(code@)
                && (if name@.len() == 0 { c.name is None } else { c.name matches Some(n) && n@ == name@ })),
            code.spec_bytes().len() > CURRENCY_CODE_LENGTH ==> (r matches Err(CurrencyError::TooLongCurrencyCode(s)) && s@ == code@),
    {
        let code = CurrencyCode::from_str(code)?;
        let name = if name.is_empty() {
            None
        } else {
            Some(name.to_owned())
        };
        Ok(Currency::new(code, name))
    }

    /// The currency with this alpha3 code in the ISO 4217 table, with its
    /// name there.
    pub fn from_alpha3(alpha3: &str) -> (r: Result<Currency, CurrencyError>)
        ensures
            iso4217_name(alpha3@) is None ==> (r matches Err(CurrencyError::InvalidISO4217Alpha3(s)) && s@ == alpha3@),
            iso4217_name(alpha3@) matches Some(name) ==> (
                if alpha3.spec_bytes().len() <= CURRENCY_CODE_LENGTH {
                    r matches Ok(c) && c.code@ == Some(alpha3@)
                        && (if name.len() == 0 { c.name is None } else { c.name matches Some(n) && n@ == name })
                } else {
                    r matches Err(CurrencyError::TooLongCurrencyCode(s)) && s@ == alpha3@
                }),
    {
        match iso4217_lookup_name(alpha3) {
            Some(name) => Currency::from_str(alpha3, name.as_str()),
            None => Err(CurrencyError::InvalidISO4217Alpha3(alpha3.to_owned())),
        }
    }
}

/// The currency with code `c` has the name `name` (none when the name is
/// empty).
pub open spec fn named(c: Currency, name: Seq<char>) -> bool {
    if name.len() == 0 {
        c.name is None
    } else {
        c.name matches Some(n) && n@ == name
    }
}

/// Every currency of the ISO 4217 table, with its name there, in the order
/// of the table: each currency is one that `iso4217::alpha3` finds, with
/// the name it gives (for the first currency of a code), and every currency
/// it finds is listed.
pub fn all_iso4217_currencies() -> (currencies: Vec<Currency>)
    ensures
        forall|i: int| 0 <= i < currencies.len() ==> (#[trigger] currencies[i]).code@ is Some && iso4217_name(currencies[i].code@->0) is Some,
        forall|i: int|
            0 <= i < currencies.len() && (forall|j: int| 0 <= j < i ==> currencies[j].code@ != (#[trigger] currencies[i]).code@) ==> named(
                currencies[i],
                iso4217_name(currencies[i].code@->0)->0,
            ),
        forall|code: Seq<char>| #[trigger] iso4217_name(code) is Some ==> exists|i: int| 0 <= i < currencies.len() && #[trigger] currencies[i].code@ == Some(code),
        one_per_code(currencies@),
{
    let table = iso4217_table();
    let mut currencies: Vec<Currency> = Vec::new();
    let mut i: usize = 0;
    while i < table.len()
        invariant
            i <= table.len(),
            currencies.len() == i,
            forall|j: int| 0 <= j < table.len() ==> #[trigger] table[j].0@.len() == 3 && vstd::utf8::is_ascii_chars(table[j].0@)
                && iso4217_name(table[j].0@) is Some,
            forall|j: int| #![trigger currencies[j]] 0 <= j < i ==> currencies[j].code@ == Some(table[j].0@) && named(currencies[j], table[j].1@),
            forall|a: int, b: int| 0 <= a < b < table.len() ==> #[trigger] table[a].0@ != #[trigger] table[b].0@,
        decreases table.len() - i,
    {
        let alpha3 = table[i].0.as_str();
        proof {
            assert(table[i as int].0@.len() == 3 && vstd::utf8::is_ascii_chars(table[i as int].0@));
            vstd::string::is_ascii_spec_bytes(alpha3);
            assert(vstd::string::is_ascii(alpha3));
            assert(alpha3.spec_bytes().len() == 3);
        }
        let currency = Currency::from_str(alpha3, table[i].1.as_str());
        match currency {
            Ok(c) => currencies.push(c),
            Err(_) => {
                assert(false);
            }
        }
        i = i + 1;
    }
    proof {
        lemma_table_currencies(table@, currencies@);
        assert forall|a: int, b: int| 0 <= a < b < currencies.len() implies (#[trigger] currencies@[a]).code@ != (#[trigger] currencies@[b]).code@ by {
            assert(table[a].0@ != table[b].0@);
        }
    }
    currencies
}

/// No two of the currencies have the same code.
pub open spec fn one_per_code(currencies: Seq<Currency>) -> bool {
    forall|a: int, b: int| 0 <= a < b < currencies.len() ==> (#[trigger] currencies[a]).code@ != (#[trigger] currencies[b]).code@
}

/// Where no two currencies share a code, each currency is the only one of
/// its code: the first of its code, so named as `iso4217::alpha3` names it
/// where the list is that of [all_iso4217_currencies]; and a code listed
/// is listed at one place only.
pub proof fn law_each_currency_listed_once(currencies: Seq<Currency>, code: Option<Seq<char>>, a: int, b: int)
    requires
        one_per_code(currencies),
        0 <= a < currencies.len(),
        0 <= b < currencies.len(),
        currencies[a].code@ == code,
        currencies[b].code@ == code,
    ensures
        a == b,
        forall|j: int| 0 <= j < a ==> currencies[j].code@ != currencies[a].code@,
{
    if a < b {
        assert(currencies[a].code@ != currencies[b].code@);
    } else if b < a {
        assert(currencies[b].code@ != currencies[a].code@);
    }
    assert forall|j: int| 0 <= j < a implies currencies[j].code@ != currencies[a].code@ by {
        assert(currencies[j].code@ != currencies[a].code@);
    }
}

/// Currencies made entry by entry from the ISO 4217 table are those that
/// `iso4217::alpha3` finds, with its names.
proof fn lemma_table_currencies(table: Seq<(String, String)>, currencies: Seq<Currency>)
    requires
        table.len() == currencies.len(),
        forall|j: int| #![trigger currencies[j]] 0 <= j < currencies.len() ==> currencies[j].code@ == Some(table[j].0@) && named(currencies[j], table[j].1@),
        forall|i: int| 0 <= i < table.len() ==> #[trigger] table[i].0@.len() == 3 && vstd::utf8::is_ascii_chars(table[i].0@)
            && iso4217_name(table[i].0@) is Some,
        forall|i: int|
            0 <= i < table.len() && (forall|j: int| 0 <= j < i ==> table[j].0@ != #[trigger] table[i].0@) ==> iso4217_name(table[i].0@)
                == Some(table[i].1@),
        forall|code: Seq<char>| #[trigger] iso4217_name(code) is Some ==> exists|i: int| 0 <= i < table.len() && #[trigger] table[i].0@ == code,
    ensures
        forall|i: int| 0 <= i < currencies.len() ==> (#[trigger] currencies[i]).code@ is Some && iso4217_name(currencies[i].code@->0) is Some,
        forall|i: int|
            0 <= i < currencies.len() && (forall|j: int| 0 <= j < i ==> currencies[j].code@ != (#[trigger] currencies[i]).code@) ==> named(
                currencies[i],
                iso4217_name(currencies[i].code@->0)->0,
            ),
        forall|code: Seq<char>| #[trigger] iso4217_name(code) is Some ==> exists|i: int| 0 <= i < currencies.len() && #[trigger] currencies[i].code@ == Some(code),
{
    assert forall|k: int| 0 <= k < currencies.len() implies (#[trigger] currencies[k]).code@ is Some && iso4217_name(currencies[k].code@->0) is Some by {
        assert(table[k].0@.len() == 3);
    }
    assert forall|k: int|
        0 <= k < currencies.len() && (forall|j: int| 0 <= j < k ==> currencies[j].code@ != (#[trigger] currencies[k]).code@) implies named(
        currencies[k],
        iso4217_name(currencies[k].code@->0)->0,
    ) by {
        assert forall|j: int| 0 <= j < k implies table[j].0@ != #[trigger] table[k].0@ by {
            assert(currencies[j].code@ == Some(table[j].0@));
        }
    }
    assert forall|code: Seq<char>| #[trigger] iso4217_name(code) is Some implies exists|k: int| 0 <= k < currencies.len() && #[trigger] currencies[k].code@ == Some(code) by {
        let k = choose|k: int| 0 <= k < table.len() && #[trigger] table[k].0@ == code;
        assert(currencies[k].code@ == Some(table[k].0@));
    }
}

/// An amount of a currency.
#[derive(Debug, Clone, Copy, PartialEq)]
pub struct Commodity {
    /// The amount.
    pub value: Decimal,
    /// The currency of the amount.
    pub currency_code: CurrencyCode,
}

/// `Ok` when both commodities have the same currency, else the error that
/// names both and the reason.
fn check_currency_compatible(this_commodity: &Commodity, other_commodity: &Commodity, reason: String) -> (r: Result<(), CurrencyError>)
    ensures
        r is Ok <==> this_commodity.currency_code@ == other_commodity.currency_code@,
        r matches Err(e) ==> (e == CurrencyError::IncompatableCommodity {
            this_commodity: *this_commodity,
            other_commodity: *other_commodity,
            reason,
        }),
{
    if !this_commodity.compatible_with(other_commodity) {
        return Err(CurrencyError::IncompatableCommodity {
            this_commodity: *this_commodity,
            other_commodity: *other_commodity,
            reason,
        });
    }
    Ok(())
}

/// The error that [Commodity::add] gives for two currencies that differ.
pub open spec fn add_error(a: Commodity, b: Commodity, e: CurrencyError) -> bool {
    e matches CurrencyError::IncompatableCommodity { this_commodity, other_commodity, reason }
        && this_commodity == a && other_commodity == b
        && reason@ == "cannot add commodities with different currencies"@
}

/// The error that [Commodity::subtract] gives for two currencies that differ.
pub open spec fn subtract_error(a: Commodity, b: Commodity, e: CurrencyError) -> bool {
    e matches CurrencyError::IncompatableCommodity { this_commodity, other_commodity, reason }
        && this_commodity == a && other_commodity == b
        && reason@ == "cannot subtract commodities with different currencies"@
}

/// Holds of the space character.
pub open spec fn is_space() -> spec_fn(char) -> bool {
    |c: char| c == ' '
}

/// The number and the code of the written form of a commodity: the text
/// before its first space, and the text after it; `None` without a space.
pub open spec fn commodity_parts(s: Seq<char>) -> Option<(Seq<char>, Seq<char>)> {
    match first_match(s, is_space()) {
        Some(i) => Some((s.subrange(0, i), s.subrange(i + 1, s.len() as int))),
        None => None,
    }
}

/// The error that [Commodity::lt] and [Commodity::gt] give for two
/// currencies that differ.
pub open spec fn compare_error(a: Commodity, b: Commodity, e: CurrencyError) -> bool {
    e matches CurrencyError::IncompatableCommodity { this_commodity, other_commodity, reason }
        && this_commodity == a && other_commodity == b
        && reason@ == "cannot compare commodities with different currencies"@
}

/// What [Commodity::eq_approx] gives: false for different currencies, else
/// whether the larger value minus the smaller is at most `epsilon`; `None`
/// when that difference overflows.
pub open spec fn approx_spec(a: Commodity, b: Commodity, epsilon: Decimal) -> Option<bool> {
    if a.currency_code@ != b.currency_code@ {
        Some(false)
    } else {
        let diff = if parts_lt(b.value@, a.value@) {
            checked_difference(a.value@, b.value@)
        } else {
            checked_difference(b.value@, a.value@)
        };
        match diff {
            Some(d) => Some(!parts_lt(epsilon@, d)),
            None => None,
        }
    }
}

impl Commodity {
    /// A commodity of this value and currency.
    pub fn new(value: Decimal, currency_code: CurrencyCode) -> (c: Commodity)
        ensures
            c.value == value,
            c.currency_code == currency_code,
    {
        Commodity { currency_code, value }
    }

    /// The value as `rust_decimal` writes it, a space, and the code (what
    /// the commodity displays), such as `"2.50 AUD"`.
    pub fn to_display_string(&self) -> (s: String)
        ensures
            s@ == decimal_text(self.value@) + " "@ + code_text(self.currency_code),
    {
        let mut s = self.value.to_display_string();
        push_str(&mut s, " ");
        let code = self.currency_code.to_display_string();
        push_str(&mut s, code.as_str());
        proof {
            reveal_strlit(" ");
        }
        s
    }

    /// Zero of this currency.
    pub fn zero(currency_code: CurrencyCode) -> (c: Commodity)
        ensures
            c.value@ == (0int, 0int),
            c.currency_code == currency_code,
    {
        Commodity::new(Decimal::zero(), currency_code)
    }

    /// A commodity from its written form: a number, a space and a currency
    /// code, such as `"2.52 AUD"`. An error when there is no space or the
    /// number does not parse, and when the code is too long.
    pub fn from_str(s: &str) -> (r: Result<Commodity, CurrencyError>)
        ensures
            commodity_parts(s@) is None ==> (r matches Err(CurrencyError::InvalidCommodityString(t)) && t@ == s@),
            commodity_parts(s@) matches Some((v, c)) ==> (
                (parsed_decimal(v) is None ==> (r matches Err(CurrencyError::InvalidCommodityString(t)) && t@ == s@))
                && (parsed_decimal(v) matches Some(d) ==> (
                    (encode_utf8(c).len() <= CURRENCY_CODE_LENGTH ==> (r matches Ok(x) && x.value@ == d && x.currency_code@ == Some(c)))
                    && (encode_utf8(c).len() > CURRENCY_CODE_LENGTH ==> (r matches Err(CurrencyError::TooLongCurrencyCode(t)) && t@ == c))))),
    {
        let n = s.unicode_len();
        let mut i: usize = 0;
        while i < n && s.get_char(i) != ' '
            invariant
                i <= n,
                n == s@.len(),
                forall|j: int| 0 <= j < i ==> !is_space()(#[trigger] s@[j]),
            decreases n - i,
        {
            i = i + 1;
        }
        if i == n {
            proof {
                lemma_first_match(s@, is_space(), n as int);
            }
            return Err(CurrencyError::InvalidCommodityString(s.to_owned()));
        }
        proof {
            lemma_first_match(s@, is_space(), i as int);
        }
        let value_part = s.substring_char(0, i);
        let code_part = s.substring_char(i + 1, n);
        let value = match Decimal::from_str(value_part) {
            Some(v) => v,
            None => {
                return Err(CurrencyError::InvalidCommodityString(s.to_owned()));
            },
        };
        let code = CurrencyCode::from_str(code_part)?;
        Ok(Commodity::new(value, code))
    }

    /// `self + other`; an error when the currencies differ. The sum must not
    /// overflow.
    pub fn add(&self, other: &Commodity) -> (r: Result<Commodity, CurrencyError>)
        requires
            self.currency_code@ == other.currency_code@ ==> checked_sum(self.value@, other.value@) is Some,
        ensures
            r is Ok <==> self.currency_code@ == other.currency_code@,
            r matches Ok(c) ==> c.value@ == checked_sum(self.value@, other.value@)->0 && c.currency_code == self.currency_code,
            r matches Err(e) ==> add_error(*self, *other, e),
            self.currency_code@ == other.currency_code@ && exact_sum(self.value@, other.value@) is Some ==> checked_sum(self.value@, other.value@)
                == exact_sum(self.value@, other.value@),
    {
        check_currency_compatible(self, other, "cannot add commodities with different currencies".to_owned())?;
        Ok(Commodity::new(self.value.add(&other.value), self.currency_code))
    }

    /// [Commodity::add], or `None` when the sum overflows.
    pub fn try_add(&self, other: &Commodity) -> (r: Option<Result<Commodity, CurrencyError>>)
        ensures
            r is None <==> (self.currency_code@ == other.currency_code@ && checked_sum(self.value@, other.value@) is None),
            r matches Some(Ok(c)) ==> self.currency_code@ == other.currency_code@
                && c.value@ == checked_sum(self.value@, other.value@)->0 && c.currency_code == self.currency_code,
            r matches Some(Err(e)) ==> self.currency_code@ != other.currency_code@ && add_error(*self, *other, e),
            self.currency_code@ == other.currency_code@ && exact_sum(self.value@, other.value@) is Some ==> checked_sum(self.value@, other.value@)
                == exact_sum(self.value@, other.value@),
    {
        if self.compatible_with(other) && self.value.checked_add(&other.value).is_none() {
            None
        } else {
            Some(self.add(other))
        }
    }

    /// `self - other`; an error when the currencies differ. The difference
    /// must not overflow.
    pub fn subtract(&self, other: &Commodity) -> (r: Result<Commodity, CurrencyError>)
        requires
            self.currency_code@ == other.currency_code@ ==> checked_difference(self.value@, other.value@) is Some,
        ensures
            r is Ok <==> self.currency_code@ == other.currency_code@,
            r matches Ok(c) ==> c.value@ == checked_difference(self.value@, other.value@)->0 && c.currency_code == self.currency_code,
            r matches Err(e) ==> subtract_error(*self, *other, e),
            self.currency_code@ == other.currency_code@ && exact_difference(self.value@, other.value@) is Some ==> checked_difference(
                self.value@,
                other.value@,
            ) == exact_difference(self.value@, other.value@),
    {
        check_currency_compatible(self, other, "cannot subtract commodities with different currencies".to_owned())?;
        Ok(Commodity::new(self.value.sub(&other.value), self.currency_code))
    }

    /// [Commodity::subtract], or `None` when the difference overflows.
    pub fn try_subtract(&self, other: &Commodity) -> (r: Option<Result<Commodity, CurrencyError>>)
        ensures
            r is None <==> (self.currency_code@ == other.currency_code@ && checked_difference(self.value@, other.value@) is None),
            r matches Some(Ok(c)) ==> self.currency_code@ == other.currency_code@
                && c.value@ == checked_difference(self.value@, other.value@)->0 && c.currency_code == self.currency_code,
            r matches Some(Err(e)) ==> self.currency_code@ != other.currency_code@ && subtract_error(*self, *other, e),
            self.currency_code@ == other.currency_code@ && exact_difference(self.value@, other.value@) is Some ==> checked_difference(
                self.value@,
                other.value@,
            ) == exact_difference(self.value@, other.value@),
    {
        if self.compatible_with(other) && self.value.checked_sub(&other.value).is_none() {
            None
        } else {
            Some(self.subtract(other))
        }
    }

    /// `-self`.
    pub fn negate(&self) -> (c: Commodity)
        ensures
            c.value@ == (-self.value@.0, self.value@.1),
            c.currency_code == self.currency_code,
    {
        Commodity::new(self.value.neg(), self.currency_code)
    }

    /// This amount multiplied by `rate`, in the currency `currency_code`.
    /// The product must not overflow.
    pub fn convert(&self, currency_code: CurrencyCode, rate: Decimal) -> (c: Commodity)
        requires
            checked_product(self.value@, rate@) is Some,
        ensures
            c.value@ == checked_product(self.value@, rate@)->0,
            c.currency_code == currency_code,
    {
        Commodity::new(self.value.mul(&rate), currency_code)
    }

    /// [Commodity::convert], or `None` when the product overflows.
    pub fn try_convert(&self, currency_code: CurrencyCode, rate: Decimal) -> (r: Option<Commodity>)
        ensures
            r is None <==> checked_product(self.value@, rate@) is None,
            r matches Some(c) ==> c.value@ == checked_product(self.value@, rate@)->0 && c.currency_code == currency_code,
    {
        match self.value.checked_mul(&rate) {
            Some(_) => Some(self.convert(currency_code, rate)),
            None => None,
        }
    }

    /// This amount divided by `i`, in the same currency. The quotient must
    /// be defined (`i` not zero, no overflow).
    pub fn div_i64(&self, i: i64) -> (c: Commodity)
        requires
            checked_quotient(self.value@, (i as int, 0int)) is Some,
        ensures
            c.value@ == checked_quotient(self.value@, (i as int, 0int))->0,
            c.currency_code == self.currency_code,
    {
        Commodity::new(self.value.div(&Decimal::new(i, 0)), self.currency_code)
    }

    /// [Commodity::div_i64], or `None` when the quotient is not defined.
    pub fn try_div_i64(&self, i: i64) -> (r: Option<Commodity>)
        ensures
            r is None <==> checked_quotient(self.value@, (i as int, 0int)) is None,
            r matches Some(c) ==> c.value@ == checked_quotient(self.value@, (i as int, 0int))->0
                && c.currency_code == self.currency_code,
    {
        match self.value.checked_div(&Decimal::new(i, 0)) {
            Some(_) => Some(self.div_i64(i)),
            None => None,
        }
    }

    /// `self < other`, comparing values; an error when the currencies
    /// differ.
    pub fn lt(&self, other: &Commodity) -> (r: Result<bool, CurrencyError>)
        ensures
            r is Ok <==> self.currency_code@ == other.currency_code@,
            r matches Ok(b) ==> b == parts_lt(self.value@, other.value@),
            r matches Err(e) ==> compare_error(*self, *other, e),
    {
        check_currency_compatible(self, other, "cannot compare commodities with different currencies".to_owned())?;
        Ok(self.value.lt(&other.value))
    }

    /// `self > other`, comparing values; an error when the currencies
    /// differ.
    pub fn gt(&self, other: &Commodity) -> (r: Result<bool, CurrencyError>)
        ensures
            r is Ok <==> self.currency_code@ == other.currency_code@,
            r matches Ok(b) ==> b == parts_lt(other.value@, self.value@),
            r matches Err(e) ==> compare_error(*self, *other, e),
    {
        check_currency_compatible(self, other, "cannot compare commodities with different currencies".to_owned())?;
        Ok(self.value.gt(&other.value))
    }

    /// Both commodities have the same currency and the same value (`==`).
    pub fn equals(&self, other: &Commodity) -> (b: bool)
        ensures
            b == (self.currency_code@ == other.currency_code@ && parts_eq(self.value@, other.value@)),
    {
        self.compatible_with(other) && self.value.equals(&other.value)
    }

    /// The default tolerance of [Commodity::eq_approx]: one millionth.
    pub fn default_epsilon() -> (d: Decimal)
        ensures
            d@ == (1int, 6int),
    {
        Decimal::new(1, 6)
    }

    /// Both commodities have the same currency, and their values differ by
    /// at most `epsilon`. The difference (the larger value minus the
    /// smaller) must not overflow.
    pub fn eq_approx(&self, other: Commodity, epsilon: Decimal) -> (b: bool)
        requires
            approx_spec(*self, other, epsilon) is Some,
        ensures
            b == approx_spec(*self, other, epsilon)->0,
    {
        if !self.compatible_with(&other) {
            return false;
        }
        let diff = if self.value.gt(&other.value) {
            self.value.sub(&other.value)
        } else {
            other.value.sub(&self.value)
        };
        diff.le(&epsilon)
    }

    /// [Commodity::eq_approx], or `None` when the difference overflows.
    pub fn try_eq_approx(&self, other: Commodity, epsilon: Decimal) -> (r: Option<bool>)
        ensures
            r == approx_spec(*self, other, epsilon),
    {
        if !self.compatible_with(&other) {
            return Some(false);
        }
        let diff = if self.value.gt(&other.value) {
            self.value.checked_sub(&other.value)
        } else {
            other.value.checked_sub(&self.value)
        };
        match diff {
            Some(_) => Some(self.eq_approx(other, epsilon)),
            None => None,
        }
    }

    /// Both commodities have the same currency.
    pub fn compatible_with(&self, other: &Commodity) -> (b: bool)
        ensures
            b == (self.currency_code@ == other.currency_code@),
    {
        self.currency_code.same_as(&other.currency_code)
    }
}

} // verus!
