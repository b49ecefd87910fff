use venmo_gnucash::money::{Money, ParseError};

fn written(text: &str) -> String {
    Money::decode(text).unwrap().to_string()
}

#[test]
fn abs_of_negative_amount_is_positive() {
    assert_eq!(Money(-2000).abs(), Money(2000));
    assert_eq!(Money(2000).abs(), Money(2000));
    assert_eq!(Money(0).abs(), Money(0));
    assert_eq!(Money(-i64::MAX).abs(), Money(i64::MAX));
}

#[test]
fn abs_leaves_its_argument_as_it_was() {
    let amount = Money(-75);
    let positive = amount.abs();
    assert_eq!(amount, Money(-75));
    assert_eq!(positive, Money(75));
}

#[test]
fn magnitude_covers_the_lowest_amount() {
    assert_eq!(Money(0).magnitude(), 0);
    assert_eq!(Money(-1).magnitude(), 1);
    assert_eq!(Money(1).magnitude(), 1);
    assert_eq!(Money(i64::MAX).magnitude(), 9223372036854775807);
    assert_eq!(Money(i64::MIN).magnitude(), 9223372036854775808);
}

#[test]
fn decode_reads_sign_and_digits() {
    assert_eq!(Money::decode("+ $12.34"), Ok(Money(1234)));
    assert_eq!(Money::decode("- $12.34"), Ok(Money(-1234)));
    assert_eq!(Money::decode("- $0.05"), Ok(Money(-5)));
    assert_eq!(Money::decode("+ $10.00"), Ok(Money(1000)));
    assert_eq!(Money::decode("+ $0.00"), Ok(Money(0)));
    assert_eq!(Money::decode("- $0.00"), Ok(Money(0)));
}

#[test]
fn decode_passes_over_points_wherever_they_stand() {
    assert_eq!(Money::decode("+ $1.2.3.4"), Ok(Money(1234)));
    assert_eq!(Money::decode("+ $.1234."), Ok(Money(1234)));
    assert_eq!(Money::decode("+ $1234"), Ok(Money(1234)));
    assert_eq!(Money::decode("- $12.345"), Ok(Money(-12345)));
    assert_eq!(Money::decode("+ $..."), Ok(Money(0)));
    assert_eq!(Money::decode("+ $"), Ok(Money(0)));
    assert_eq!(Money::decode("- $"), Ok(Money(0)));
    assert_eq!(Money::decode("+ $007"), Ok(Money(7)));
}

#[test]
fn decode_of_empty_text_misses_the_sign() {
    assert_eq!(Money::decode(""), Err(ParseError::MissingSign));
}

#[test]
fn decode_refuses_a_first_character_that_is_no_sign() {
    assert_eq!(Money::decode("$12.00"), Err(ParseError::InvalidSign));
    assert_eq!(Money::decode("12.00"), Err(ParseError::InvalidSign));
    assert_eq!(Money::decode(" + $12.00"), Err(ParseError::InvalidSign));
    assert_eq!(Money::decode("\u{2212} $12.00"), Err(ParseError::InvalidSign));
}

#[test]
fn decode_of_a_lone_sign_misses_the_separator() {
    assert_eq!(Money::decode("+"), Err(ParseError::MissingSeparator));
    assert_eq!(Money::decode("-"), Err(ParseError::MissingSeparator));
}

#[test]
fn decode_refuses_a_second_character_that_is_no_space() {
    assert_eq!(Money::decode("+12.00"), Err(ParseError::InvalidSeparator));
    assert_eq!(Money::decode("+$12.00"), Err(ParseError::InvalidSeparator));
    assert_eq!(Money::decode("-\t$12.00"), Err(ParseError::InvalidSeparator));
}

#[test]
fn decode_of_sign_and_space_misses_the_currency_mark() {
    assert_eq!(Money::decode("+ "), Err(ParseError::MissingCurrencyMark));
    assert_eq!(Money::decode("- "), Err(ParseError::MissingCurrencyMark));
}

#[test]
fn decode_refuses_a_third_character_that_is_no_dollar() {
    assert_eq!(Money::decode("+ 12.00"), Err(ParseError::InvalidCurrencyMark));
    assert_eq!(Money::decode("+  $12.00"), Err(ParseError::InvalidCurrencyMark));
    assert_eq!(Money::decode("+ \u{20ac}12.00"), Err(ParseError::InvalidCurrencyMark));
}

#[test]
fn decode_names_the_first_character_that_is_no_digit() {
    assert_eq!(Money::decode("+ $1x.00"), Err(ParseError::InvalidDigit('x')));
    assert_eq!(Money::decode("+ $1x2y"), Err(ParseError::InvalidDigit('x')));
    assert_eq!(Money::decode("+ $12,00"), Err(ParseError::InvalidDigit(',')));
    assert_eq!(Money::decode("+ $-12"), Err(ParseError::InvalidDigit('-')));
    assert_eq!(Money::decode("+ $12 "), Err(ParseError::InvalidDigit(' ')));
    assert_eq!(Money::decode("+ $\u{0661}"), Err(ParseError::InvalidDigit('\u{0661}')));
}

#[test]
fn decode_refuses_more_than_an_amount_can_count() {
    assert_eq!(Money::decode("+ $92233720368547758.07"), Ok(Money(i64::MAX)));
    assert_eq!(Money::decode("- $92233720368547758.07"), Ok(Money(-i64::MAX)));
    assert_eq!(Money::decode("+ $92233720368547758.08"), Err(ParseError::Overflow));
    assert_eq!(Money::decode("- $92233720368547758.08"), Err(ParseError::Overflow));
    assert_eq!(Money::decode("+ $100000000000000000000"), Err(ParseError::Overflow));
    assert_eq!(Money::decode("+ $0000000000000000000000001"), Ok(Money(1)));
}

#[test]
fn decode_names_an_invalid_character_behind_too_many_digits() {
    assert_eq!(
        Money::decode("+ $99999999999999999999x"),
        Err(ParseError::InvalidDigit('x'))
    );
}

#[test]
fn to_string_puts_the_point_before_the_last_two_digits() {
    assert_eq!(Money(1234).to_string(), "12.34");
    assert_eq!(Money(-1234).to_string(), "-12.34");
    assert_eq!(Money(123).to_string(), "1.23");
    assert_eq!(Money(100).to_string(), "1.00");
    assert_eq!(Money(1000).to_string(), "10.00");
    assert_eq!(Money(2000).to_string(), "20.00");
    assert_eq!(Money(-100050).to_string(), "-1000.50");
}

#[test]
fn to_string_of_two_digits_starts_with_the_point() {
    assert_eq!(Money(12).to_string(), ".12");
    assert_eq!(Money(-12).to_string(), "-.12");
    assert_eq!(Money(10).to_string(), ".10");
    assert_eq!(Money(99).to_string(), ".99");
}

#[test]
fn to_string_of_one_digit_starts_with_the_point() {
    assert_eq!(Money(5).to_string(), ".5");
    assert_eq!(Money(-5).to_string(), "-.5");
    assert_eq!(Money(9).to_string(), ".9");
}

#[test]
fn to_string_of_nothing_is_the_point_alone() {
    assert_eq!(Money(0).to_string(), ".");
}

#[test]
fn to_string_of_the_extremes() {
    assert_eq!(Money(i64::MAX).to_string(), "92233720368547758.07");
    assert_eq!(Money(i64::MIN).to_string(), "-92233720368547758.08");
}

#[test]
fn to_string_writes_no_plus() {
    assert_eq!(written("+ $12.34"), "12.34");
    assert_eq!(written("- $12.34"), "-12.34");
}

#[test]
fn decode_then_to_string_of_whole_amounts() {
    assert_eq!(written("+ $12.34"), "12.34");
    assert_eq!(written("+ $10.00"), "10.00");
    assert_eq!(written("- $20.00"), "-20.00");
}

#[test]
fn decode_then_to_string_pads_nothing() {
    assert_eq!(written("- $0.05"), "-.5");
    assert_eq!(written("+ $0.50"), ".50");
    assert_eq!(written("+ $0.00"), ".");
}

#[test]
fn decoded_abs_is_written_without_a_sign() {
    let texts = [
        "+ $12.34",
        "- $12.34",
        "- $0.05",
        "+ $0.00",
        "- $",
        "- $1.2.3",
        "- $92233720368547758.07",
        "+ $7",
    ];
    for text in texts {
        let amount = Money::decode(text).unwrap().abs();
        assert!(amount.0 >= 0);
        let out = amount.to_string();
        let first = out.chars().next().unwrap();
        assert!(first != '-' && first != '+');
        assert!(out.chars().all(|c| c.is_ascii_digit() || c == '.'));
    }
}

#[test]
fn default_is_no_money() {
    assert_eq!(Money::default(), Money(0));
}

#[test]
fn written_magnitude_behind_its_sign_decodes_to_the_amount() {
    let amounts = [0, 1, -1, 5, -5, 12, -12, 100, -100050, 1234, i64::MAX, -i64::MAX];
    for v in amounts {
        let sign = if v < 0 { "- $" } else { "+ $" };
        let text = format!("{}{}", sign, Money(v).abs().to_string());
        assert_eq!(Money::decode(&text), Ok(Money(v)));
    }
}

#[test]
fn amounts_order_as_their_minor_units() {
    assert!(Money(-5) < Money(0));
    assert!(Money(0) < Money(5));
    assert!(Money(1234) > Money(123));
    assert_eq!(Money(7), Money(7));
}
