use donation_report::money::parse_money_cents;

#[test]
fn parses_plain_two_decimal_prices() {
    assert_eq!(parse_money_cents("50.00"), Some(5000));
    assert_eq!(parse_money_cents("0.00"), Some(0));
    assert_eq!(parse_money_cents("100.00"), Some(10000));
    assert_eq!(parse_money_cents("150.55"), Some(15055));
}

#[test]
fn parses_shorter_decimal_forms() {
    assert_eq!(parse_money_cents("50"), Some(5000));
    assert_eq!(parse_money_cents("50.5"), Some(5050));
    assert_eq!(parse_money_cents("007.25"), Some(725));
}

#[test]
fn rejects_malformed_prices() {
    assert_eq!(parse_money_cents(""), None);
    assert_eq!(parse_money_cents("abc"), None);
    assert_eq!(parse_money_cents("."), None);
    assert_eq!(parse_money_cents(".50"), None);
    assert_eq!(parse_money_cents("50."), None);
    assert_eq!(parse_money_cents("50.555"), None);
    assert_eq!(parse_money_cents("1e3"), None);
    assert_eq!(parse_money_cents("-5.00"), None);
    assert_eq!(parse_money_cents("5 .00"), None);
}

#[test]
fn enforces_the_money_bound() {
    assert_eq!(
        parse_money_cents("10000000000000.00"),
        Some(1_000_000_000_000_000)
    );
    assert_eq!(parse_money_cents("10000000000000.01"), None);
    assert_eq!(parse_money_cents("99999999999999"), None);
}
