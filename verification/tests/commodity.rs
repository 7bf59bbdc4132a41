use commodity::{Commodity, CommodityError, CommodityType, CommodityTypeID, Decimal};

#[test]
fn commodity_incompatible_commodity_type() {
    let commodity_type1 = CommodityTypeID::from_str("USD").unwrap();
    let commodity_type2 = CommodityTypeID::from_str("AUD").unwrap();

    let commodity1 = Commodity::new(Decimal::new(400, 2), commodity_type1);
    let commodity2 = Commodity::new(Decimal::new(250, 2), commodity_type2);

    let error1 = commodity1.add(&commodity2).expect_err("expected an error");

    assert_eq!(
        CommodityError::IncompatableCommodity {
            this_commodity: commodity1.clone(),
            other_commodity: commodity2.clone(),
            reason: String::from("cannot add commodities with different currencies"),
        },
        error1
    );

    let error2 = commodity1.sub(&commodity2).expect_err("expected an error");

    assert_eq!(
        CommodityError::IncompatableCommodity {
            this_commodity: commodity1,
            other_commodity: commodity2,
            reason: String::from("cannot subtract commodities with different currencies"),
        },
        error2
    );
}

/// Test the `PartialEq` implementation for `CommodityType`.
#[test]
fn test_commodity_type_partial_eq() {
    let aud = CommodityType::from_str("AUD", "Australian Dollar").unwrap();
    let aud2 = CommodityType::from_str("AUD", "Australian Dollar 2").unwrap();
    assert!(aud == aud2);

    let usd = CommodityType::from_str("USD", "United States Dollar").unwrap();
    assert!(aud != usd);
}

/// Test the display form of `CommodityType`.
#[test]
fn test_commodity_type_display() {
    let aud = CommodityType::from_str("AUD", "Australian dollar").unwrap();
    assert_eq!("AUD (Australian dollar)", aud.display_string().as_str());

    let test = CommodityType::new(CommodityTypeID::from_str("TEST").unwrap(), None);
    assert_eq!("TEST", test.display_string().as_str())
}

#[test]
fn commodity_add_compatible() {
    let usd = CommodityTypeID::from_str("USD").unwrap();
    let commodity1 = Commodity::new(Decimal::new(400, 2), usd);
    let commodity2 = Commodity::new(Decimal::new(250, 2), usd);

    let result = commodity1.add(&commodity2).unwrap();
    assert_eq!(Decimal::new(650, 2), result.value);
    assert_eq!(usd, result.type_id);
}

#[test]
fn commodity_sub_compatible() {
    let usd = CommodityTypeID::from_str("USD").unwrap();
    let commodity1 = Commodity::new(Decimal::new(400, 2), usd);
    let commodity2 = Commodity::new(Decimal::new(250, 2), usd);

    let result = commodity1.sub(&commodity2).unwrap();
    assert_eq!(Decimal::new(150, 2), result.value);
    assert_eq!(usd, result.type_id);
}

/// Addition and subtraction are inverse, negation is an involution, and
/// the absolute value is non-negative.
#[test]
fn commodity_add_sub_inverses() {
    let aud = CommodityTypeID::from_str("AUD").unwrap();
    let a = Commodity::new(Decimal::from_str("1.25").unwrap(), aud);
    let b = Commodity::new(Decimal::from_str("3.50").unwrap(), aud);

    let sum = a.add(&b).unwrap();
    assert_eq!(aud, sum.type_id);
    let back = sum.sub(&b).unwrap();
    assert_eq!(a.value, back.value);

    assert_eq!(a, a.neg().neg());

    let negative = Commodity::new(Decimal::from_str("-7.5").unwrap(), aud);
    assert_eq!(Decimal::from_str("7.5").unwrap(), negative.abs().value);
    assert!(!negative.abs().lt(&Commodity::zero(aud)).unwrap());
}

#[test]
fn commodity_neg() {
    let usd = CommodityTypeID::from_str("USD").unwrap();
    let commodity = Commodity::new(Decimal::new(202, 2), usd);
    let result = commodity.neg();
    assert_eq!(Decimal::from_str("-2.02").unwrap(), result.value);
    assert_eq!(usd, result.type_id);
}

#[test]
fn commodity_compare_incompatible() {
    let usd = Commodity::new(Decimal::new(100, 2), CommodityTypeID::from_str("USD").unwrap());
    let aud = Commodity::new(Decimal::new(100, 2), CommodityTypeID::from_str("AUD").unwrap());

    for error in [
        usd.lt(&aud).expect_err("expected an error"),
        usd.gt(&aud).expect_err("expected an error"),
        usd.total_compare(&aud).expect_err("expected an error"),
    ] {
        match error {
            CommodityError::IncompatableCommodity { reason, .. } => {
                assert!(reason.contains("compare"));
            }
            other => panic!("unexpected error {:?}", other),
        }
    }

    // equality across types is total and simply false
    assert!(usd != aud);
}

#[test]
fn commodity_lt_gt_compatible() {
    let aud1 = Commodity::from_str("1.0 AUD").unwrap();
    let aud2 = Commodity::from_str("2.0 AUD").unwrap();

    assert_eq!(true, aud1.lt(&aud2).unwrap());
    assert_eq!(false, aud2.lt(&aud1).unwrap());
    assert_eq!(false, aud1.gt(&aud2).unwrap());
    assert_eq!(true, aud2.gt(&aud1).unwrap());

    assert_eq!(std::cmp::Ordering::Less, aud1.total_compare(&aud2).unwrap());
    assert_eq!(std::cmp::Ordering::Greater, aud2.total_compare(&aud1).unwrap());
    assert_eq!(
        std::cmp::Ordering::Equal,
        aud1.total_compare(&aud1).unwrap()
    );
}

#[test]
fn commodity_eq_approx() {
    let aud = CommodityTypeID::from_str("AUD").unwrap();
    let nzd = CommodityTypeID::from_str("NZD").unwrap();
    let a = Commodity::new(Decimal::from_str("1.0").unwrap(), aud);
    let close = Commodity::new(Decimal::from_str("1.0000005").unwrap(), aud);
    let far = Commodity::new(Decimal::from_str("1.000002").unwrap(), aud);
    let other_type = Commodity::new(Decimal::from_str("1.0").unwrap(), nzd);

    assert!(a.eq_approx(close, Commodity::default_epsilon()));
    assert!(!a.eq_approx(far, Commodity::default_epsilon()));
    // for distinct types the answer is false however large the tolerance
    assert!(!a.eq_approx(other_type, Decimal::new(1000, 0)));
}

#[test]
fn commodity_div_i64() {
    let commodity = Commodity::from_str("4.03 AUD").unwrap();
    let result = commodity.div_i64(4);
    assert_eq!(Decimal::new(10075, 4), result.value);
}

#[test]
fn divide_share() {
    let commodity = Commodity::from_str("4.03 AUD").unwrap();
    let results = commodity.divide_share(4, 2);

    assert_eq!(4, results.len());
    assert_eq!(Decimal::new(101, 2), results.get(0).unwrap().value);
    assert_eq!(Decimal::new(101, 2), results.get(1).unwrap().value);
    assert_eq!(Decimal::new(101, 2), results.get(2).unwrap().value);
    assert_eq!(Decimal::new(100, 2), results.get(3).unwrap().value);
    for share in &results {
        assert!(share.type_id.eq_str("AUD"));
    }
}

#[test]
fn divide_share_negative_dividend() {
    let commodity = Commodity::from_str("-4.03 AUD").unwrap();
    let results = commodity.divide_share(4, 2);

    assert_eq!(4, results.len());
    assert_eq!(Decimal::new(-101, 2), results.get(0).unwrap().value);
    assert_eq!(Decimal::new(-101, 2), results.get(1).unwrap().value);
    assert_eq!(Decimal::new(-101, 2), results.get(2).unwrap().value);
    assert_eq!(Decimal::new(-100, 2), results.get(3).unwrap().value);
}

#[test]
fn divide_share_negative_divisor() {
    let commodity = Commodity::from_str("4.03 AUD").unwrap();
    let results = commodity.divide_share(-4, 2);

    assert_eq!(4, results.len());
    assert_eq!(Decimal::new(-101, 2), results.get(0).unwrap().value);
    assert_eq!(Decimal::new(-101, 2), results.get(1).unwrap().value);
    assert_eq!(Decimal::new(-101, 2), results.get(2).unwrap().value);
    assert_eq!(Decimal::new(-100, 2), results.get(3).unwrap().value);
}

/// When the value carries no digits below the requested precision, the
/// shares sum back to it exactly.
#[test]
fn divide_share_sum_preserved() {
    for text in ["4.03 AUD", "-4.03 AUD", "4.00 AUD", "8.02 AUD"] {
        let commodity = Commodity::from_str(text).unwrap();
        let shares = commodity.divide_share(4, 2);
        let mut sum = Commodity::zero(commodity.type_id);
        for share in &shares {
            sum = sum.add(share).unwrap();
        }
        assert!(
            sum.eq_approx(commodity, Decimal::new(0, 0)),
            "shares of {} sum to {}",
            text,
            sum.display_string()
        );
    }
}

#[test]
fn divide_share_checked_rejects() {
    let commodity = Commodity::from_str("4.03 AUD").unwrap();
    assert!(commodity.divide_share_checked(0, 2).is_none());
    assert!(commodity.divide_share_checked(4, 60).is_none());
    assert!(commodity.divide_share_checked(i64::MIN, 0).is_none());
    assert!(commodity.divide_share_checked(4, 2).is_some());
}

#[test]
fn commodity_convert_by_rate() {
    let aud = Commodity::from_str("100.00 AUD").unwrap();
    let usd = aud.convert(
        CommodityTypeID::from_str("USD").unwrap(),
        Decimal::from_str("0.01").unwrap(),
    );

    assert_eq!(Decimal::from_str("1.00").unwrap(), usd.value);
    assert!(usd.type_id.eq_str("USD"));
}

#[test]
fn commodity_zero() {
    let usd = CommodityTypeID::from_str("USD").unwrap();
    let zero = Commodity::zero(usd);
    assert_eq!(Decimal::new(0, 0), zero.value);
    assert_eq!(usd, zero.type_id);
    assert!(zero.compatible_with(&Commodity::new(Decimal::new(5, 0), usd)));
}

#[test]
fn decimal_equality_is_numeric() {
    assert_eq!(Decimal::from_str("1.0").unwrap(), Decimal::from_str("1.00").unwrap());
    assert_eq!(Decimal::new(10, 1), Decimal::new(1, 0));
    assert_ne!(Decimal::new(11, 1), Decimal::new(1, 0));
}

#[test]
fn decimal_parse_rejects_garbage() {
    assert!(Decimal::from_str("abc").is_none());
    assert!(Decimal::from_str("").is_none());
    assert!(Decimal::from_str("-4.03").is_some());
}
