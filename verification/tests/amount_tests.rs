use stash_ledger::amount::{decimal_to_cents, parse_amount_and_reason, AmountError};

#[test]
fn whole_number_is_hundredfold() {
    assert_eq!(parse_amount_and_reason("12", false), Ok((1200, None)));
}

#[test]
fn single_fraction_digit_counts_tenths() {
    assert_eq!(parse_amount_and_reason("12.3", false), Ok((1230, None)));
}

#[test]
fn signed_amount_where_allowed() {
    assert_eq!(parse_amount_and_reason("-3.50", true), Ok((-350, None)));
    assert_eq!(parse_amount_and_reason("+5", true), Ok((500, None)));
}

#[test]
fn three_fraction_digits_are_rejected() {
    assert_eq!(parse_amount_and_reason("12.345", false), Err(AmountError::InvalidAmount));
    assert_eq!(parse_amount_and_reason("12.345 lunch", false), Err(AmountError::InvalidAmount));
    assert_eq!(parse_amount_and_reason("1,234.56", false), Err(AmountError::InvalidAmount));
}

#[test]
fn trailing_text_becomes_the_note() {
    assert_eq!(parse_amount_and_reason("5 lunch", false), Ok((500, Some("lunch".to_string()))));
}

#[test]
fn note_is_trimmed() {
    assert_eq!(
        parse_amount_and_reason("  7  coffee beans  ", false),
        Ok((700, Some("coffee beans".to_string())))
    );
    assert_eq!(parse_amount_and_reason("7   ", false), Ok((700, None)));
    assert_eq!(
        parse_amount_and_reason("\u{a0}5\u{3000}tea\u{2003}", false),
        Ok((500, Some("tea".to_string())))
    );
}

#[test]
fn note_may_follow_without_a_space() {
    assert_eq!(parse_amount_and_reason("5lunch", false), Ok((500, Some("lunch".to_string()))));
    assert_eq!(parse_amount_and_reason("12.", false), Ok((1200, Some(".".to_string()))));
    assert_eq!(parse_amount_and_reason("5.5.5", false), Ok((550, Some(".5".to_string()))));
    assert_eq!(
        parse_amount_and_reason("5 lunch\nwith Ann", false),
        Ok((500, Some("lunch\nwith Ann".to_string())))
    );
}

#[test]
fn comma_separates_the_fraction_too() {
    assert_eq!(parse_amount_and_reason("12,5", false), Ok((1250, None)));
    assert_eq!(parse_amount_and_reason("0,07 gum", false), Ok((7, Some("gum".to_string()))));
}

#[test]
fn sign_is_rejected_where_not_allowed() {
    assert_eq!(parse_amount_and_reason("-5", false), Err(AmountError::SignNotAllowed));
    assert_eq!(parse_amount_and_reason("+5", false), Err(AmountError::SignNotAllowed));
    assert_eq!(parse_amount_and_reason("  -x", false), Err(AmountError::SignNotAllowed));
}

#[test]
fn missing_or_malformed_number_is_invalid() {
    assert_eq!(parse_amount_and_reason("", false), Err(AmountError::InvalidAmount));
    assert_eq!(parse_amount_and_reason("   ", true), Err(AmountError::InvalidAmount));
    assert_eq!(parse_amount_and_reason("lunch 5", false), Err(AmountError::InvalidAmount));
    assert_eq!(parse_amount_and_reason(".5", false), Err(AmountError::InvalidAmount));
    assert_eq!(parse_amount_and_reason("-", true), Err(AmountError::InvalidAmount));
    assert_eq!(parse_amount_and_reason("+-5", true), Err(AmountError::InvalidAmount));
    assert_eq!(parse_amount_and_reason("\u{663}", false), Err(AmountError::InvalidAmount));
}

#[test]
fn amounts_beyond_the_range_overflow() {
    assert_eq!(
        parse_amount_and_reason("92233720368547758.07", false),
        Ok((i64::MAX, None))
    );
    assert_eq!(
        parse_amount_and_reason("92233720368547758.08", false),
        Err(AmountError::AmountOverflow)
    );
    assert_eq!(
        parse_amount_and_reason("-92233720368547758.07", true),
        Ok((-i64::MAX, None))
    );
    assert_eq!(
        parse_amount_and_reason("-92233720368547758.08", true),
        Err(AmountError::AmountOverflow)
    );
    assert_eq!(
        parse_amount_and_reason("92233720368547759", false),
        Err(AmountError::AmountOverflow)
    );
    assert_eq!(
        parse_amount_and_reason("99999999999999999999999999999999999999999 big", false),
        Err(AmountError::AmountOverflow)
    );
}

#[test]
fn malformed_is_reported_before_overflow() {
    assert_eq!(
        parse_amount_and_reason("99999999999999999999999.123", false),
        Err(AmountError::InvalidAmount)
    );
}

#[test]
fn leading_zeros_do_not_count() {
    assert_eq!(parse_amount_and_reason("0000000000000000000000012.05", false), Ok((1205, None)));
    assert_eq!(parse_amount_and_reason("0", false), Ok((0, None)));
    assert_eq!(parse_amount_and_reason("-0.00", true), Ok((0, None)));
}

#[test]
fn decimal_to_cents_reads_plain_numbers() {
    assert_eq!(decimal_to_cents("12"), Ok(1200));
    assert_eq!(decimal_to_cents("12.3"), Ok(1230));
    assert_eq!(decimal_to_cents("12.34"), Ok(1234));
    assert_eq!(decimal_to_cents("+5"), Ok(500));
    assert_eq!(decimal_to_cents("-3.5"), Ok(-350));
    assert_eq!(decimal_to_cents("0.09"), Ok(9));
}

#[test]
fn decimal_to_cents_takes_nothing_but_the_number() {
    assert_eq!(decimal_to_cents(""), Err(AmountError::InvalidAmount));
    assert_eq!(decimal_to_cents("12.345"), Err(AmountError::InvalidAmount));
    assert_eq!(decimal_to_cents("1.2.3"), Err(AmountError::InvalidAmount));
    assert_eq!(decimal_to_cents("12 "), Err(AmountError::InvalidAmount));
    assert_eq!(decimal_to_cents(" 12"), Err(AmountError::InvalidAmount));
    assert_eq!(decimal_to_cents("12."), Err(AmountError::InvalidAmount));
    assert_eq!(decimal_to_cents("12x"), Err(AmountError::InvalidAmount));
    assert_eq!(decimal_to_cents("92233720368547758.08"), Err(AmountError::AmountOverflow));
}
