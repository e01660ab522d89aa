use coster::currency::{all_iso4217_currencies, Commodity, Currency, CurrencyCode, CurrencyError};
use coster::decimal::Decimal;
use coster::exchange_rate::{ExchangeRate, ExchangeRateError};

#[test]
fn commodity_incompatible_currency() {
    let currency1 = CurrencyCode::from_str("USD").unwrap();
    let currency2 = CurrencyCode::from_str("AUD").unwrap();

    let commodity1 = Commodity::new(Decimal::new(400, 2), currency1);
    let commodity2 = Commodity::new(Decimal::new(250, 2), currency2);

    let error1 = commodity1.add(&commodity2).expect_err("expected an error");

    assert_eq!(
        CurrencyError::IncompatableCommodity {
            this_commodity: commodity1.clone(),
            other_commodity: commodity2.clone(),
            reason: String::from("cannot add commodities with different currencies"),
        },
        error1
    );

    let error2 = commodity1.subtract(&commodity2).expect_err("expected an error");

    assert_eq!(
        CurrencyError::IncompatableCommodity {
            this_commodity: commodity1,
            other_commodity: commodity2,
            reason: String::from("cannot subtract commodities with different currencies"),
        },
        error2
    );
}

#[test]
fn commodity_arithmetic() {
    let usd = CurrencyCode::from_str("USD").unwrap();
    let a = Commodity::new(Decimal::new(400, 2), usd);
    let b = Commodity::new(Decimal::new(250, 2), usd);
    assert_eq!(Commodity::new(Decimal::new(650, 2), usd), a.add(&b).unwrap());
    assert_eq!(Commodity::new(Decimal::new(150, 2), usd), a.subtract(&b).unwrap());
    assert_eq!(Commodity::new(Decimal::new(-400, 2), usd), a.negate());
    assert_eq!(Commodity::new(Decimal::new(200, 2), usd), a.div_i64(2));
    assert!(a.try_div_i64(0).is_none());
    let aud = CurrencyCode::from_str("AUD").unwrap();
    let converted = a.convert(aud, Decimal::new(15, 1));
    assert_eq!(Commodity::new(Decimal::new(6, 0), aud), converted);
    assert!(a.lt(&a.add(&b).unwrap()).unwrap());
    assert!(a.gt(&b).unwrap());
    assert!(a.lt(&Commodity::new(Decimal::new(1, 0), aud)).is_err());
    assert!(a.eq_approx(Commodity::new(Decimal::new(4000001, 6), usd), Commodity::default_epsilon()));
    assert!(!a.eq_approx(Commodity::new(Decimal::new(4000002, 6), usd), Commodity::default_epsilon()));
    assert!(!a.eq_approx(Commodity::new(Decimal::new(400, 2), aud), Commodity::default_epsilon()));
    assert!(a.equals(&Commodity::new(Decimal::new(4, 0), usd)));
}

#[test]
fn commodity_from_str() {
    let c = Commodity::from_str("-2.52 AUD").unwrap();
    assert_eq!(Commodity::new(Decimal::new(-252, 2), CurrencyCode::from_str("AUD").unwrap()), c);
    assert!(matches!(Commodity::from_str("2.52"), Err(CurrencyError::InvalidCommodityString(s)) if s == "2.52"));
    assert!(matches!(Commodity::from_str("two AUD"), Err(CurrencyError::InvalidCommodityString(_))));
    assert!(matches!(Commodity::from_str("1 ABCDEFGHI"), Err(CurrencyError::TooLongCurrencyCode(s)) if s == "ABCDEFGHI"));
}

#[test]
fn decimal_overflow_and_division() {
    let max = Decimal::from_i128_with_scale(79228162514264337593543950335, 0);
    assert!(max.checked_add(&max).is_none());
    assert!(max.checked_mul(&Decimal::new(2, 0)).is_none());
    assert!(Decimal::new(1, 0).checked_div(&Decimal::zero()).is_none());
    let third = Decimal::new(1, 0).checked_div(&Decimal::new(3, 0)).unwrap();
    assert!(third.lt(&Decimal::new(34, 2)) && third.gt(&Decimal::new(33, 2)));
    assert!(Decimal::new(10, 1).equals(&Decimal::new(1, 0)));
    assert_eq!(Decimal::new(-5, 1), Decimal::from_str("-0.5").unwrap());
    assert!(Decimal::from_str("abc").is_none());
    assert_eq!((7, 0), (Decimal::new(3, 0).checked_add(&Decimal::new(4, 0)).unwrap().mantissa(), 0));
    assert_eq!(Decimal::new(-1, 0), Decimal::new(3, 0).checked_sub(&Decimal::new(4, 0)).unwrap());
}

#[test]
fn currency_codes() {
    let code = CurrencyCode::from_str("AUD").unwrap();
    assert_eq!("AUD", code.to_display_string());
    assert!(code.same_as(&CurrencyCode::from_str("AUD").unwrap()));
    assert!(!code.same_as(&CurrencyCode::Common));
    assert!(CurrencyCode::str_eq("AUD", &code));
    assert!(!CurrencyCode::str_eq("USD", &code));
    assert!(matches!(CurrencyCode::from_str("ABCDEFGHI"), Err(CurrencyError::TooLongCurrencyCode(_))));
    assert_eq!("Common Currency", CurrencyCode::Common.to_display_string());
}

#[test]
fn iso4217_currencies() {
    let aud = Currency::from_alpha3("AUD").unwrap();
    assert_eq!(CurrencyCode::from_str("AUD").unwrap(), aud.code);
    assert_eq!(Some("Australian dollar".to_string()), aud.name);
    assert!(matches!(Currency::from_alpha3("QQQ"), Err(CurrencyError::InvalidISO4217Alpha3(s)) if s == "QQQ"));
    let all = all_iso4217_currencies();
    assert!(all.len() > 100);
    assert!(all.iter().any(|c| c.code == CurrencyCode::from_str("USD").unwrap()));
    assert_eq!(Some("Common".to_string()), Currency::common().name);
    let named = Currency::from_str("XYZ", "").unwrap();
    assert_eq!(None, named.name);
}

#[test]
fn exchange_rate_conversions() {
    let aud = CurrencyCode::from_str("AUD").unwrap();
    let usd = CurrencyCode::from_str("USD").unwrap();
    let eu = CurrencyCode::from_str("EU").unwrap();
    let rate = ExchangeRate::new(None, None, aud, vec![(usd, Decimal::new(2542, 3)), (eu, Decimal::new(1234, 3))]);
    assert_eq!(Decimal::new(2542, 3), *rate.get_rate(&usd).unwrap());
    assert!(rate.get_rate(&CurrencyCode::from_str("NZD").unwrap()).is_none());

    let from_base = rate.convert(Commodity::new(Decimal::new(2, 0), aud), usd).unwrap();
    assert_eq!(Commodity::new(Decimal::new(5084, 3), usd), from_base);

    let missing = rate.convert(Commodity::new(Decimal::new(2, 0), CurrencyCode::from_str("NZD").unwrap()), usd);
    assert!(matches!(missing, Err(ExchangeRateError::CurrencyNotPresent(_))));
    assert!(rate.try_convert(Commodity::new(Decimal::new(2, 0), usd), eu).is_some());
}

#[test]
fn decimal_order_across_scales() {
    let a = Decimal::new(15, 1);
    let b = Decimal::new(150, 2);
    let c = Decimal::new(2, 0);
    assert!(a.equals(&b) && b.equals(&a));
    assert!(!a.lt(&b) && !b.lt(&a));
    assert!(a.lt(&c) && b.lt(&c) && c.gt(&a));
    assert!(a.le(&b) && a.ge(&b));
    assert!(Decimal::new(0, 5).is_zero() && Decimal::new(0, 5).equals(&Decimal::zero()));
    assert!(Decimal::new(-1, 3).lt(&Decimal::zero()));
}

#[test]
fn commodity_display() {
    let aud = CurrencyCode::from_str("AUD").unwrap();
    assert_eq!("2.50 AUD", Commodity::new(Decimal::new(250, 2), aud).to_display_string());
    assert_eq!("-3 AUD", Commodity::new(Decimal::new(-3, 0), aud).to_display_string());
    assert_eq!("0.005", Decimal::new(5, 3).to_display_string());
    assert_eq!("Common Currency", CurrencyCode::Common.to_display_string());
    assert_eq!("1 Common Currency", Commodity::new(Decimal::new(1, 0), CurrencyCode::Common).to_display_string());
}

#[test]
fn exchange_rate_with_the_deserialized_rates() {
    // the rates of the JSON document {"base": "AUD", "rates": {"USD": 2.542, "EU": "1.234"}}
    let aud = CurrencyCode::from_str("AUD").unwrap();
    let usd = CurrencyCode::from_str("USD").unwrap();
    let eu = CurrencyCode::from_str("EU").unwrap();
    let exchange_rate = ExchangeRate::new(
        None,
        None,
        aud,
        vec![(usd, Decimal::from_str("2.542").unwrap()), (eu, Decimal::from_str("1.234").unwrap())],
    );
    assert!(CurrencyCode::str_eq("AUD", &exchange_rate.base));
    assert_eq!(Decimal::from_str("2.542").unwrap(), *exchange_rate.get_rate(&usd).unwrap());
    assert_eq!(Decimal::from_str("1.234").unwrap(), *exchange_rate.get_rate(&eu).unwrap());
    assert!(exchange_rate.get_rate(&CurrencyCode::from_str("NZD").unwrap()).is_none());
}

#[test]
fn commodity_subtract_at_one_scale() {
    let usd = CurrencyCode::from_str("USD").unwrap();
    let c1 = Commodity::new(Decimal::new(400, 2), usd);
    let c2 = Commodity::new(Decimal::new(250, 2), usd);
    let r = c1.subtract(&c2).unwrap();
    assert_eq!(150, r.value.mantissa());
    assert_eq!(2, r.value.scale());
    assert!(r.currency_code.same_as(&usd));
}

#[test]
fn test_deserialize() {
    let data = r#"
            {
                "base": "AUD",
                "rates": {
                    "USD": 2.542,
                    "EU": "1.234"
                }
            }
            "#;

    let value: serde_json::Value = serde_json::from_str(data).unwrap();
    let base = CurrencyCode::from_str(value["base"].as_str().unwrap()).unwrap();
    let mut rates = Vec::new();
    for (code, rate) in value["rates"].as_object().unwrap() {
        let text = match rate {
            serde_json::Value::String(s) => s.clone(),
            other => other.to_string(),
        };
        rates.push((CurrencyCode::from_str(code).unwrap(), Decimal::from_str(&text).unwrap()));
    }
    let exchange_rate = ExchangeRate::new(None, None, base, rates);
    let usd = CurrencyCode::from_str("USD").unwrap();
    let eu = CurrencyCode::from_str("EU").unwrap();

    assert!(CurrencyCode::str_eq("AUD", &exchange_rate.base));
    assert_eq!(Decimal::from_str("2.542").unwrap(), *exchange_rate.get_rate(&usd).unwrap());
    assert_eq!(Decimal::from_str("1.234").unwrap(), *exchange_rate.get_rate(&eu).unwrap());
}

#[test]
fn decimals_are_written_with_their_scale() {
    assert_eq!("-2.52", Decimal::new(-252, 2).to_display_string());
    assert_eq!("0.005", Decimal::new(5, 3).to_display_string());
    assert_eq!("0.00", Decimal::new(0, 2).to_display_string());
    assert_eq!("0", Decimal::new(0, 0).to_display_string());
    assert_eq!("120", Decimal::new(120, 0).to_display_string());
}

#[test]
fn decimals_of_different_scales_add_exactly() {
    let sum = Decimal::new(25, 1).checked_add(&Decimal::new(252, 2)).unwrap();
    assert_eq!(502, sum.mantissa());
    assert_eq!(2, sum.scale());
    let difference = Decimal::new(-1, 0).checked_sub(&Decimal::new(252, 2)).unwrap();
    assert_eq!(-352, difference.mantissa());
    assert_eq!(2, difference.scale());
}
