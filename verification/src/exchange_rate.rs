//! Exchange rates between currencies, relative to a base currency.

use vstd::prelude::*;
use crate::currency::{Commodity, CurrencyCode};
use crate::decimal::{Decimal, checked_product, checked_quotient};

verus! {

/// A point in time in UTC (a `chrono::DateTime<chrono::Utc>`), carried
/// unread. It is held in a struct of its own, hidden from Verus, because
/// `chrono::DateTime` cannot be declared to Verus: its time zone parameter
/// is bound by chrono's `TimeZone` trait.
#[verifier::external_body]
#[derive(Debug, Copy, PartialEq, Eq, Hash)]
pub struct UtcDateTime {
    pub datetime: chrono::DateTime<chrono::Utc>,
}

impl Clone for UtcDateTime {
    fn clone(&self) -> (r: Self)
        ensures
            r == *self,
    {
        *self
    }
}

/// Errors while converting with an exchange rate.
#[derive(Debug, Clone, PartialEq)]
pub enum ExchangeRateError {
    /// The exchange rate holds no rate for this currency.
    CurrencyNotPresent(CurrencyCode),
}

/// Where an exchange rate came from.
#[derive(Debug, Clone, PartialEq)]
pub enum ExchangeRateSource {
    /// A local source.
    Local,
    /// From the internet (the string names the source).
    Internet(String),
}

/// Rates of several currencies against a base currency.
#[derive(Debug)]
pub struct ExchangeRate {
    /// The datetime that this exchange rate represents.
    pub datetime: Option<UtcDateTime>,
    /// The datetime that this exchange rate was obtained.
    pub obtained_datetime: Option<UtcDateTime>,
    /// The base currency.
    pub base: CurrencyCode,
    /// The rate of each currency against the base currency.
    pub rates: Vec<(CurrencyCode, Decimal)>,
}

/// The first rate given for `code` in `rates`.
pub open spec fn find_rate(rates: Seq<(CurrencyCode, Decimal)>, code: Option<Seq<char>>) -> Option<Decimal>
    decreases rates.len(),
{
    if rates.len() == 0 {
        None
    } else if rates[0].0@ == code {
        Some(rates[0].1)
    } else {
        find_rate(rates.drop_first(), code)
    }
}

/// `b` is a copy of `a`: both absent, or both present with the same
/// datetimes, base and rates.
pub open spec fn same_rate(a: Option<ExchangeRate>, b: Option<ExchangeRate>) -> bool {
    match (a, b) {
        (None, None) => true,
        (Some(x), Some(y)) => {
            &&& x.datetime == y.datetime
            &&& x.obtained_datetime == y.obtained_datetime
            &&& x.base == y.base
            &&& x.rates@ == y.rates@
        },
        _ => false,
    }
}

impl Clone for ExchangeRate {
    fn clone(&self) -> (r: Self)
        ensures
            r.datetime == self.datetime,
            r.obtained_datetime == self.obtained_datetime,
            r.base == self.base,
            r.rates@ == self.rates@,
    {
        let mut rates: Vec<(CurrencyCode, Decimal)> = Vec::new();
        let mut i: usize = 0;
        while i < self.rates.len()
            invariant
                i <= self.rates.len(),
                rates@ == self.rates@.take(i as int),
            decreases self.rates.len() - i,
        {
            rates.push(self.rates[i]);
            i = i + 1;
            proof {
                assert(rates@ =~= self.rates@.take(i as int));
            }
        }
        proof {
            assert(rates@ =~= self.rates@);
        }
        ExchangeRate { datetime: self.datetime, obtained_datetime: self.obtained_datetime, base: self.base, rates }
    }
}

impl ExchangeRate {
    /// An exchange rate with these rates against `base`.
    pub fn new(
        datetime: Option<UtcDateTime>,
        obtained_datetime: Option<UtcDateTime>,
        base: CurrencyCode,
        rates: Vec<(CurrencyCode, Decimal)>,
    ) -> (r: ExchangeRate)
        ensures
            r.datetime == datetime,
            r.obtained_datetime == obtained_datetime,
            r.base == base,
            r.rates@ == rates@,
    {
        ExchangeRate { datetime, obtained_datetime, base, rates }
    }

    /// The rate of `currency_code` against the base currency, if present.
    pub fn get_rate(&self, currency_code: &CurrencyCode) -> (r: Option<&Decimal>)
        ensures
            r is None <==> find_rate(self.rates@, currency_code@) is None,
            r matches Some(d) ==> find_rate(self.rates@, currency_code@) == Some(*d),
    {
        let mut i: usize = 0;
        proof {
            assert(self.rates@.skip(0) =~= self.rates@);
        }
        while i < self.rates.len()
            invariant
                i <= self.rates.len(),
                find_rate(self.rates@, currency_code@) == find_rate(self.rates@.skip(i as int), currency_code@),
            decreases self.rates.len() - i,
        {
            proof {
                assert(self.rates@.skip(i as int).drop_first() =~= self.rates@.skip(i + 1));
            }
            if self.rates[i].0.same_as(currency_code) {
                return Some(&self.rates[i].1);
            }
            i = i + 1;
        }
        None
    }
}

/// What [ExchangeRate::convert] gives: `None` where an operation on the
/// amounts would overflow or divide by zero, else the converted value or
/// the error.
pub open spec fn convert_spec(rate: ExchangeRate, commodity: Commodity, target: CurrencyCode) -> Option<Result<(int, int), ExchangeRateError>> {
    let from_base = commodity.currency_code@ == rate.base@ && find_rate(rate.rates@, target@) is Some;
    let to_base = target@ == rate.base@ && find_rate(rate.rates@, commodity.currency_code@) is Some;
    if from_base {
        match checked_product(find_rate(rate.rates@, target@)->0@, commodity.value@) {
            Some(v) => Some(Ok(v)),
            None => None,
        }
    } else if to_base {
        match checked_quotient(find_rate(rate.rates@, commodity.currency_code@)->0@, commodity.value@) {
            Some(v) => Some(Ok(v)),
            None => None,
        }
    } else if find_rate(rate.rates@, commodity.currency_code@) is None {
        Some(Err(ExchangeRateError::CurrencyNotPresent(commodity.currency_code)))
    } else if find_rate(rate.rates@, target@) is None {
        Some(Err(ExchangeRateError::CurrencyNotPresent(target)))
    } else {
        match checked_quotient(commodity.value@, find_rate(rate.rates@, commodity.currency_code@)->0@) {
            Some(q) => match checked_product(q, find_rate(rate.rates@, target@)->0@) {
                Some(v) => Some(Ok(v)),
                None => None,
            },
            None => None,
        }
    }
}

impl ExchangeRate {
    /// Converts `commodity` to the currency `target_currency`: from the base
    /// currency by multiplying with the target's rate, to the base currency
    /// with the source's rate divided by the amount, and between two other
    /// currencies through their rates. An error names a currency without a
    /// rate. No operation on the amounts may overflow or divide by zero.
    pub fn convert(&self, commodity: Commodity, target_currency: CurrencyCode) -> (r: Result<Commodity, ExchangeRateError>)
        requires
            convert_spec(*self, commodity, target_currency) is Some,
        ensures
            r matches Ok(c) ==> c.currency_code == target_currency
                && convert_spec(*self, commodity, target_currency) == Some(Ok::<(int, int), ExchangeRateError>(c.value@)),
            r matches Err(e) ==> convert_spec(*self, commodity, target_currency) == Some(Err::<(int, int), ExchangeRateError>(e)),
    {
        if commodity.currency_code.same_as(&self.base) {
            match self.get_rate(&target_currency) {
                Some(rate) => return Ok(Commodity::new(rate.mul(&commodity.value), target_currency)),
                None => {},
            };
        }
        if target_currency.same_as(&self.base) {
            match self.get_rate(&commodity.currency_code) {
                Some(rate) => return Ok(Commodity::new(rate.div(&commodity.value), target_currency)),
                None => {},
            };
        }
        let commodity_rate = match self.get_rate(&commodity.currency_code) {
            Some(rate) => rate,
            None => return Err(ExchangeRateError::CurrencyNotPresent(commodity.currency_code)),
        };
        let target_rate = match self.get_rate(&target_currency) {
            Some(rate) => rate,
            None => return Err(ExchangeRateError::CurrencyNotPresent(target_currency)),
        };
        let value = commodity.value.div(commodity_rate).mul(target_rate);
        Ok(Commodity::new(value, target_currency))
    }

    /// [ExchangeRate::convert], or `None` where an operation on the amounts
    /// would overflow or divide by zero.
    pub fn try_convert(&self, commodity: Commodity, target_currency: CurrencyCode) -> (r: Option<Result<Commodity, ExchangeRateError>>)
        ensures
            r is None <==> convert_spec(*self, commodity, target_currency) is None,
            r matches Some(Ok(c)) ==> c.currency_code == target_currency
                && convert_spec(*self, commodity, target_currency) == Some(Ok::<(int, int), ExchangeRateError>(c.value@)),
            r matches Some(Err(e)) ==> convert_spec(*self, commodity, target_currency) == Some(Err::<(int, int), ExchangeRateError>(e)),
    {
        let defined = if commodity.currency_code.same_as(&self.base) && self.get_rate(&target_currency).is_some() {
            self.get_rate(&target_currency).unwrap().checked_mul(&commodity.value).is_some()
        } else if target_currency.same_as(&self.base) && self.get_rate(&commodity.currency_code).is_some() {
            self.get_rate(&commodity.currency_code).unwrap().checked_div(&commodity.value).is_some()
        } else {
            match (self.get_rate(&commodity.currency_code), self.get_rate(&target_currency)) {
                (Some(from), Some(to)) => match commodity.value.checked_div(from) {
                    Some(q) => q.checked_mul(to).is_some(),
                    None => false,
                },
                _ => true,
            }
        };
        if defined {
            Some(self.convert(commodity, target_currency))
        } else {
            None
        }
    }
}


/// Converting goes through the rates, which are against the base currency:
/// from the base currency, the target's rate times the amount; to the base
/// currency, the source's rate divided by the amount; and between two
/// other currencies, the amount divided by the source's rate, times the
/// target's rate (rust_decimal's `/` and `*`, in that order). A currency
/// without a rate, other than the base, is an error that names it.
pub proof fn law_convert_through_rates(rate: ExchangeRate, commodity: Commodity, target: CurrencyCode)
    ensures
        ({
            let source_rate = find_rate(rate.rates@, commodity.currency_code@);
            let target_rate = find_rate(rate.rates@, target@);
            let value = commodity.value@;
            let result = convert_spec(rate, commodity, target);
            &&& commodity.currency_code@ == rate.base@ ==> match target_rate {
                Some(t) => result == match checked_product(t@, value) {
                    Some(v) => Some(Ok::<(int, int), ExchangeRateError>(v)),
                    None => None,
                },
                None => true,
            }
            &&& commodity.currency_code@ != rate.base@ && target@ == rate.base@ ==> match source_rate {
                Some(f) => result == match checked_quotient(f@, value) {
                    Some(v) => Some(Ok::<(int, int), ExchangeRateError>(v)),
                    None => None,
                },
                None => true,
            }
            &&& commodity.currency_code@ != rate.base@ && target@ != rate.base@ ==> match (source_rate, target_rate) {
                (Some(f), Some(t)) => result == match checked_quotient(value, f@) {
                    Some(q) => match checked_product(q, t@) {
                        Some(v) => Some(Ok::<(int, int), ExchangeRateError>(v)),
                        None => None,
                    },
                    None => None,
                },
                (None, _) => result == Some(Err::<(int, int), ExchangeRateError>(ExchangeRateError::CurrencyNotPresent(commodity.currency_code))),
                (Some(_), None) => result == Some(Err::<(int, int), ExchangeRateError>(ExchangeRateError::CurrencyNotPresent(target))),
            }
        }),
{
}

} // verus!
