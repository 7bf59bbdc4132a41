use commodity::{Commodity, CommodityError, CommodityType, CommodityTypeID, Decimal};

/// Every id of at most eight characters survives a parse/display round
/// trip unchanged.
#[test]
fn type_id_display_round_trip() {
    for text in ["AUD", "", "X", "ABCDEFGH", "usd2"] {
        let id = CommodityTypeID::from_str(text).unwrap();
        assert_eq!(text, id.display_string().as_str());
        assert!(id.eq_str(text));
    }
}

/// Parsing an id fails exactly when the text is longer than eight
/// characters.
#[test]
fn type_id_length_guard() {
    assert!(CommodityTypeID::from_str("ABCDEFGH").is_ok());
    match CommodityTypeID::from_str("ABCDEFGHI") {
        Err(CommodityError::TooLongCommodityTypeID(text)) => assert_eq!("ABCDEFGHI", text),
        other => panic!("unexpected result {:?}", other),
    }
}

#[test]
fn type_id_new_from_chars() {
    let id = CommodityTypeID::new(['N', 'Z', 'D', '\0', '\0', '\0', '\0', '\0'], 3);
    assert_eq!("NZD", id.display_string().as_str());
    assert_eq!(id, CommodityTypeID::from_str("NZD").unwrap());
}

#[test]
fn type_id_eq_str() {
    let id = CommodityTypeID::from_str("AUD").unwrap();
    assert!(id.eq_str("AUD"));
    assert!(!id.eq_str("AU"));
    assert!(!id.eq_str("AUDX"));
    assert!(!id.eq_str("ABCDEFGHI"));
}

#[test]
fn type_id_lexicographic_order() {
    let aud = CommodityTypeID::from_str("AUD").unwrap();
    let nzd = CommodityTypeID::from_str("NZD").unwrap();
    let au = CommodityTypeID::from_str("AU").unwrap();
    assert!(aud.lt_id(&nzd));
    assert!(!nzd.lt_id(&aud));
    assert!(au.lt_id(&aud));
    assert!(!aud.lt_id(&aud));
}

#[test]
fn commodity_from_str_valid() {
    let commodity = Commodity::from_str("1.234 USD").unwrap();
    assert_eq!(Decimal::from_str("1.234").unwrap(), commodity.value);
    assert_eq!(CommodityTypeID::from_str("USD").unwrap(), commodity.type_id);

    let negative = Commodity::from_str("-4.03 AUD").unwrap();
    assert_eq!(Decimal::from_str("-4.03").unwrap(), negative.value);
}

#[test]
fn commodity_from_str_invalid() {
    for text in ["", "1.234", "1.234 USD extra", "notanum USD", "USD 1.234"] {
        match Commodity::from_str(text) {
            Err(CommodityError::InvalidCommodityString(kept)) => assert_eq!(text, kept),
            other => panic!("unexpected result for {:?}: {:?}", text, other),
        }
    }
    match Commodity::from_str("1.234 ABCDEFGHI") {
        Err(CommodityError::TooLongCommodityTypeID(kept)) => assert_eq!("ABCDEFGHI", kept),
        other => panic!("unexpected result {:?}", other),
    }
}

/// A commodity survives a display/parse round trip unchanged.
#[test]
fn commodity_display_round_trip() {
    for text in ["1.234 USD", "-4.03 AUD", "0 X", "926.91220713000 NOK"] {
        let commodity = Commodity::from_str(text).unwrap();
        assert_eq!(text, commodity.display_string().as_str());
        let again = Commodity::from_str(commodity.display_string().as_str()).unwrap();
        assert_eq!(commodity, again);
    }
}

#[test]
fn commodity_from_str_accepts_extra_whitespace() {
    let commodity = Commodity::from_str("  1.234 \t USD ").unwrap();
    assert_eq!(Decimal::from_str("1.234").unwrap(), commodity.value);
    assert!(commodity.type_id.eq_str("USD"));
}

#[test]
fn commodity_type_from_strings() {
    let aud = CommodityType::from_str("AUD", "Australian dollar").unwrap();
    assert!(aud.id.eq_str("AUD"));
    assert_eq!(Some(String::from("Australian dollar")), aud.name);

    let anonymous = CommodityType::from_str("AUD", "").unwrap();
    assert_eq!(None, anonymous.name);

    assert!(CommodityType::from_str("ABCDEFGHI", "too long").is_err());
}

#[test]
fn commodity_type_from_currency_alpha3() {
    let aud = CommodityType::from_currency_alpha3("AUD").unwrap();
    assert!(aud.id.eq_str("AUD"));
    assert_eq!(Some(String::from("Australian dollar")), aud.name);

    match CommodityType::from_currency_alpha3("ZZZ") {
        Err(CommodityError::InvalidISO4217Alpha3(code)) => assert_eq!("ZZZ", code),
        other => panic!("unexpected result {:?}", other),
    }
    assert!(CommodityType::from_currency_alpha3("notacode").is_err());
}

#[test]
fn all_iso4217_currencies_lists_known_codes() {
    let currencies = commodity::all_iso4217_currencies();
    assert!(currencies.len() > 100);
    assert!(currencies.iter().any(|c| c.id.eq_str("AUD")));
    assert!(currencies.iter().any(|c| c.id.eq_str("USD")));
    for currency in &currencies {
        assert_eq!(3, currency.id.display_string().chars().count());
    }
}

#[test]
fn type_id_from_commodity_type() {
    let aud = CommodityType::from_str("AUD", "Australian dollar").unwrap();
    let id = CommodityTypeID::from(&aud);
    assert_eq!(aud.id, id);
}
