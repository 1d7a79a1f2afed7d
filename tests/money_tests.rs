use budget::{Money, ParseMoneyError};

#[test]
fn products_and_quotients_round_to_nearest_cent() {
    assert_eq!(Money::new(0), Money::new(5).mul(Money::new(5)));
    assert_eq!(Money::new(50), Money::new(150).mul(Money::new(33)));
    assert_eq!(Money::new(-50), Money::new(-150).mul(Money::new(33)));
    assert_eq!(Money::new(33), Money::new(100).div(Money::new(300)));
    assert_eq!(Money::new(67), Money::new(200).div(Money::new(300)));
    assert_eq!(Money::new(-33), Money::new(-100).div(Money::new(300)));
    assert_eq!(Money::new(-67), Money::new(200).div(Money::new(-300)));
    assert_eq!(Money::new(250), Money::new(500).div(Money::new(200)));
}

#[test]
fn sums_and_differences_are_exact() {
    assert_eq!(Money::new(1035), Money::new(1025).add(Money::new(10)));
    assert_eq!(Money::new(-75), Money::new(25).sub(Money::new(100)));
}

#[test]
fn value_edit_and_round() {
    let mut m = Money::new(1234);
    assert_eq!(1234, m.value());
    m.edit_amount(-99);
    assert_eq!(-99, m.value());
    assert_eq!(m, m.round());
}

#[test]
fn parse_accepts_decimal_forms() {
    assert_eq!(Ok(Money::new(101)), Money::parse("1.005"));
    assert_eq!(Ok(Money::new(-101)), Money::parse("-1.005"));
    assert_eq!(Ok(Money::new(100)), Money::parse("1.004"));
    assert_eq!(Ok(Money::new(50)), Money::parse("+.5"));
    assert_eq!(Ok(Money::new(500)), Money::parse("5."));
    assert_eq!(Ok(Money::new(-1050)), Money::parse("$-10.5"));
    assert_eq!(Ok(Money::new(700)), Money::parse("$7"));
}

#[test]
fn parse_rejects_other_text() {
    assert_eq!(Err(ParseMoneyError::Invalid), Money::parse(""));
    assert_eq!(Err(ParseMoneyError::Invalid), Money::parse("$"));
    assert_eq!(Err(ParseMoneyError::Invalid), Money::parse("abc"));
    assert_eq!(Err(ParseMoneyError::Invalid), Money::parse("."));
    assert_eq!(Err(ParseMoneyError::Invalid), Money::parse("1.2.3"));
    assert_eq!(Err(ParseMoneyError::Invalid), Money::parse("$$1"));
    assert_eq!(Err(ParseMoneyError::Invalid), Money::parse("1 "));
    assert_eq!(Err(ParseMoneyError::OutOfRange), Money::parse("99999999999999999999"));
    assert_eq!(Err(ParseMoneyError::OutOfRange), Money::parse("92233720368547758.08"));
    assert_eq!(Ok(Money::new(i64::MIN)), Money::parse("-92233720368547758.08"));
}

#[test]
fn text_has_symbol_and_two_decimals() {
    assert_eq!("$10.25", Money::new(1025).to_text());
    assert_eq!("$-0.05", Money::new(-5).to_text());
    assert_eq!("$0.00", Money::new(0).to_text());
    assert_eq!("$1234.50", Money::new(123450).to_text());
}

#[test]
fn text_reads_back_to_same_value() {
    for c in [0i64, 1, -1, 99, 100, -12345, 987654321, i64::MAX, i64::MIN] {
        let m = Money::new(c);
        assert_eq!(Ok(m), Money::parse(&m.to_text()));
    }
}

#[test]
fn dollar_sign_is_optional() {
    assert_eq!(Money::parse("$10.25"), Money::parse("10.25"));
    assert_eq!(Ok(Money::new(1025)), "10.25".parse::<Money>());
}
