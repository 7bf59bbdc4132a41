use commodity::exchange_rate::{CalendarDate, ExchangeRate, ExchangeRateError, RateMap, Timestamp};
use commodity::{Commodity, CommodityTypeID, Decimal};

/// Convert between two commodities at a reference rate (no base rate commodity type).
#[test]
fn convert_reference_rates() {
    let mut rates = RateMap::new();
    let aud = CommodityTypeID::from_str("AUD").unwrap();
    let nzd = CommodityTypeID::from_str("NZD").unwrap();
    rates.insert(aud, Decimal::from_str("1.6417").unwrap());
    rates.insert(nzd, Decimal::from_str("1.7094").unwrap());

    let exchange_rate = ExchangeRate {
        date: Some(CalendarDate { year: 2020, month: 2, day: 7 }),
        base: None,
        obtained_datetime: None,
        rates,
    };

    {
        let start_commodity = Commodity::new(Decimal::from_str("10.0").unwrap(), aud);
        let converted_commodity = exchange_rate.convert(start_commodity, nzd);
        assert_eq!(
            Decimal::from_str("10.412377413656575501005055735").unwrap(),
            converted_commodity.unwrap().value
        );
        assert_eq!(
            exchange_rate.rate_between(&aud, &nzd).unwrap(),
            Some(Decimal::from_str("1.0412377413656575501005055735").unwrap())
        );
    }

    {
        let start_commodity = Commodity::new(Decimal::from_str("10.0").unwrap(), nzd);
        let converted_commodity = exchange_rate.convert(start_commodity, aud);
        assert_eq!(
            Decimal::from_str("9.603954603954603954603954604").unwrap(),
            converted_commodity.unwrap().value
        );
        assert_eq!(
            exchange_rate.rate_between(&nzd, &aud).unwrap(),
            Some(Decimal::from_str("0.9603954603954603954603954604").unwrap())
        );
    }
}

/// Convert between commodities using an exchange rate with a base rate.
#[test]
fn convert_base_rate() {
    let mut rates = RateMap::new();
    let nok = CommodityTypeID::from_str("NOK").unwrap();
    let usd = CommodityTypeID::from_str("USD").unwrap();
    let gel = CommodityTypeID::from_str("GEL").unwrap();

    rates.insert(nok, Decimal::from_str("9.2691220713").unwrap());
    rates.insert(gel, Decimal::from_str("3.08").unwrap());

    let exchange_rate = ExchangeRate {
        date: Some(CalendarDate { year: 2020, month: 2, day: 7 }),
        base: Some(usd),
        obtained_datetime: None,
        rates,
    };

    {
        let start_commodity = Commodity::new(Decimal::from_str("100.0").unwrap(), usd);
        let converted_commodity = exchange_rate.convert(start_commodity, nok);
        assert_eq!(
            Decimal::from_str("926.91220713000").unwrap(),
            converted_commodity.unwrap().value
        );
        assert_eq!(
            exchange_rate.rate_between(&usd, &nok).unwrap(),
            Some(Decimal::from_str("9.2691220713").unwrap())
        );
    }

    {
        let start_commodity = Commodity::new(Decimal::from_str("100.0").unwrap(), nok);
        let converted_commodity = exchange_rate.convert(start_commodity, usd);
        assert_eq!(
            Decimal::from_str("10.788508256853169187585300628").unwrap(),
            converted_commodity.unwrap().value
        );
        assert_eq!(
            exchange_rate.rate_between(&nok, &usd).unwrap(),
            Some(Decimal::from_str("0.1078850825685316918758530063").unwrap())
        );
    }

    {
        let start_commodity = Commodity::new(Decimal::from_str("100.0").unwrap(), nok);
        let converted_commodity = exchange_rate.convert(start_commodity, gel);
        assert_eq!(
            Decimal::from_str("33.228605431107761097762725934").unwrap(),
            converted_commodity.unwrap().value
        );
        assert_eq!(
            exchange_rate.rate_between(&nok, &gel).unwrap(),
            Some(Decimal::from_str("0.3322860543110776109776272593").unwrap())
        );
    }
}

#[test]
fn get_rate_present_and_absent() {
    let mut rates = RateMap::new();
    let aud = CommodityTypeID::from_str("AUD").unwrap();
    let nzd = CommodityTypeID::from_str("NZD").unwrap();
    rates.insert(aud, Decimal::from_str("1.5").unwrap());

    let exchange_rate = ExchangeRate {
        date: None,
        base: None,
        obtained_datetime: Some(Timestamp { epoch_seconds: 1581033600, nanoseconds: 0 }),
        rates,
    };

    assert_eq!(
        Some(&Decimal::from_str("1.5").unwrap()),
        exchange_rate.get_rate(&aud)
    );
    assert_eq!(None, exchange_rate.get_rate(&nzd));
}

#[test]
fn rate_map_insert_replaces_and_orders() {
    let mut rates = RateMap::new();
    let aud = CommodityTypeID::from_str("AUD").unwrap();
    let nzd = CommodityTypeID::from_str("NZD").unwrap();
    rates.insert(nzd, Decimal::new(2, 0));
    rates.insert(aud, Decimal::new(1, 0));
    rates.insert(nzd, Decimal::new(3, 0));

    let entries = rates.entries();
    assert_eq!(2, entries.len());
    assert!(entries[0].0.eq_str("AUD"));
    assert!(entries[1].0.eq_str("NZD"));
    assert_eq!(Decimal::new(1, 0), entries[0].1);
    assert_eq!(Decimal::new(3, 0), entries[1].1);

    assert_eq!(Some(&Decimal::new(3, 0)), rates.get(&nzd));
    assert_eq!(Some(&Decimal::new(1, 0)), rates.get(&aud));
}

#[test]
fn convert_missing_rate_reports_the_id() {
    let mut rates = RateMap::new();
    let aud = CommodityTypeID::from_str("AUD").unwrap();
    let nzd = CommodityTypeID::from_str("NZD").unwrap();
    let sek = CommodityTypeID::from_str("SEK").unwrap();
    rates.insert(aud, Decimal::from_str("1.6417").unwrap());

    let exchange_rate = ExchangeRate { date: None, base: None, obtained_datetime: None, rates };

    match exchange_rate.convert(Commodity::new(Decimal::new(1, 0), sek), aud) {
        Err(ExchangeRateError::CommodityTypeNotPresent(id)) => assert!(id.eq_str("SEK")),
        other => panic!("unexpected result {:?}", other),
    }
    match exchange_rate.convert(Commodity::new(Decimal::new(1, 0), aud), nzd) {
        Err(ExchangeRateError::CommodityTypeNotPresent(id)) => assert!(id.eq_str("NZD")),
        other => panic!("unexpected result {:?}", other),
    }
    assert_eq!(None, exchange_rate.rate_between(&sek, &aud).unwrap());
    assert_eq!(None, exchange_rate.rate_between(&aud, &nzd).unwrap());
}

#[test]
fn convert_zero_rate_reports_divide_overflow() {
    let mut rates = RateMap::new();
    let nok = CommodityTypeID::from_str("NOK").unwrap();
    let usd = CommodityTypeID::from_str("USD").unwrap();
    rates.insert(nok, Decimal::new(0, 0));

    let exchange_rate = ExchangeRate { date: None, base: Some(usd), obtained_datetime: None, rates };

    match exchange_rate.convert(Commodity::new(Decimal::new(100, 0), nok), usd) {
        Err(ExchangeRateError::DivideOverflow(numerator, denominator)) => {
            assert_eq!(Decimal::new(100, 0), numerator);
            assert_eq!(Decimal::new(0, 0), denominator);
        }
        other => panic!("unexpected result {:?}", other),
    }
    match exchange_rate.rate_between(&nok, &usd) {
        Err(ExchangeRateError::DivideOverflow(numerator, denominator)) => {
            assert_eq!(Decimal::new(1, 0), numerator);
            assert_eq!(Decimal::new(0, 0), denominator);
        }
        other => panic!("unexpected result {:?}", other),
    }
}

/// With reference rates and no base, converting there and back returns the
/// original value up to the decimal layer's precision.
#[test]
fn convert_reference_round_trip() {
    let mut rates = RateMap::new();
    let aud = CommodityTypeID::from_str("AUD").unwrap();
    let nzd = CommodityTypeID::from_str("NZD").unwrap();
    rates.insert(aud, Decimal::from_str("1.6417").unwrap());
    rates.insert(nzd, Decimal::from_str("1.7094").unwrap());

    let exchange_rate = ExchangeRate { date: None, base: None, obtained_datetime: None, rates };

    let start = Commodity::new(Decimal::from_str("10.0").unwrap(), aud);
    let there = exchange_rate.convert(start, nzd).unwrap();
    let back = exchange_rate.convert(there, aud).unwrap();
    assert!(back.eq_approx(start, Commodity::default_epsilon()));
}

/// Converting one unit between base and a quoted type matches what
/// `rate_between` reports for the pair, in both directions.
#[test]
fn rate_between_mirrors_convert_through_base() {
    let mut rates = RateMap::new();
    let nok = CommodityTypeID::from_str("NOK").unwrap();
    let usd = CommodityTypeID::from_str("USD").unwrap();
    rates.insert(nok, Decimal::from_str("9.2691220713").unwrap());

    let exchange_rate = ExchangeRate { date: None, base: Some(usd), obtained_datetime: None, rates };

    let one_usd = Commodity::new(Decimal::new(1, 0), usd);
    let converted = exchange_rate.convert(one_usd, nok).unwrap();
    let reported = exchange_rate.rate_between(&usd, &nok).unwrap().unwrap();
    assert_eq!(converted.value, reported);

    let one_nok = Commodity::new(Decimal::new(1, 0), nok);
    let converted_back = exchange_rate.convert(one_nok, usd).unwrap();
    let reported_back = exchange_rate.rate_between(&nok, &usd).unwrap().unwrap();
    assert_eq!(converted_back.value, reported_back);
}
