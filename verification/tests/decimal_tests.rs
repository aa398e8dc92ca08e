use feature_engine::decimal::{parse_decimal, DecimalError, FixedDecimal, Price, Quantity};

fn decimal(text: &str) -> FixedDecimal {
    FixedDecimal::parse_canonical(text.as_bytes()).unwrap()
}

fn text(value: FixedDecimal) -> String {
    String::from_utf8(value.to_ascii()).unwrap()
}

#[test]
fn decimals_read_back_from_their_text() {
    for sample in ["0", "1", "-1", "12.5", "-0.001", "340282366920.38", "0.00000000000000000001"] {
        assert_eq!(text(decimal(sample)), sample);
        assert_eq!(parse_decimal(sample.as_bytes()), Some(decimal(sample)));
    }
}

#[test]
fn only_canonical_texts_are_decimals() {
    for sample in ["", "-", "01", "1.", ".5", "1.50", "-0", "+1", "1e3", "1.2.3", " 1"] {
        assert_eq!(
            FixedDecimal::parse_canonical(sample.as_bytes()),
            Err(DecimalError::InvalidText)
        );
        assert!(parse_decimal(sample.as_bytes()).is_none());
    }
}

#[test]
fn arithmetic_is_exact() {
    assert_eq!(text(decimal("0.1").checked_add(decimal("0.2")).unwrap()), "0.3");
    assert_eq!(text(decimal("1").checked_sub(decimal("1.25")).unwrap()), "-0.25");
    assert_eq!(text(decimal("1.5").checked_mul(decimal("-0.2")).unwrap()), "-0.3");
    assert_eq!(text(decimal("1").checked_div_exact(decimal("8")).unwrap()), "0.125");
    assert_eq!(text(decimal("2.5").checked_neg().unwrap()), "-2.5");
    assert!(decimal("1").checked_div_exact(decimal("3")).is_err());
    assert_eq!(
        decimal("1").checked_div_exact(FixedDecimal::zero()),
        Err(DecimalError::DivisionByZero)
    );
}

#[test]
fn decimals_out_of_range_are_refused() {
    assert_eq!(FixedDecimal::new(1, 39), Err(DecimalError::ScaleOutOfRange));
    let large = FixedDecimal::new(i128::MAX, 0).unwrap();
    assert_eq!(large.checked_add(FixedDecimal::whole(1)), Err(DecimalError::Unrepresentable));
    assert_eq!(large.checked_mul(large), Err(DecimalError::Unrepresentable));
}

#[test]
fn decimals_compare_by_value() {
    assert_eq!(FixedDecimal::new(150, 2).unwrap(), decimal("1.5"));
    assert!(decimal("-2").less_than(&decimal("-1.5")));
    assert!(decimal("1.5").equals(&FixedDecimal::new(15, 1).unwrap()));
    assert!(!decimal("1.5").less_than(&decimal("1.5")));
}

#[test]
fn prices_are_positive_and_quantities_are_not_negative() {
    assert_eq!(Price::new(FixedDecimal::zero()), Err(DecimalError::OutOfDomain));
    assert!(Price::new(decimal("0.01")).is_ok());
    assert!(Quantity::new(FixedDecimal::zero()).is_ok());
    assert_eq!(Quantity::new(decimal("-1")), Err(DecimalError::OutOfDomain));
    let low = Price::new(decimal("1")).unwrap();
    let high = Price::new(decimal("2")).unwrap();
    assert!(low.is_below(&high));
    assert_eq!(low.max_of(high), high);
    assert_eq!(low.min_of(high), low);
}
