use terrain_generator_2d::vector::{Vector2, VectorError};

#[test]
fn parses_a_plain_dimension_pair() {
    let v = Vector2::from_str_intern("2000x2000").unwrap();
    assert_eq!(v.x, 2000);
    assert_eq!(v.y, 2000);
    let v = Vector2::from_str_intern("12x34").unwrap();
    assert_eq!(v.x, 12);
    assert_eq!(v.y, 34);
    let v = Vector2::from_str_intern("0x0").unwrap();
    assert_eq!(v.x, 0);
    assert_eq!(v.y, 0);
}

#[test]
fn missing_separator_means_a_missing_scalar() {
    assert_eq!(Vector2::from_str_intern("12"), Err(VectorError::MissingScalar));
}

#[test]
fn empty_scalars_are_rejected() {
    assert_eq!(Vector2::from_str_intern("x34"), Err(VectorError::EmptyScalar));
    assert_eq!(Vector2::from_str_intern("12x"), Err(VectorError::EmptyScalar));
    assert_eq!(Vector2::from_str_intern(""), Err(VectorError::EmptyScalar));
    assert_eq!(Vector2::from_str_intern("x"), Err(VectorError::EmptyScalar));
}

#[test]
fn non_digit_scalars_are_rejected() {
    assert_eq!(Vector2::from_str_intern("1ax2"), Err(VectorError::InvalidDigit));
    assert_eq!(Vector2::from_str_intern("12x3b"), Err(VectorError::InvalidDigit));
    assert_eq!(Vector2::from_str_intern("-1x2"), Err(VectorError::InvalidDigit));
}

#[test]
fn extra_data_after_the_pair_is_rejected() {
    assert_eq!(Vector2::from_str_intern("1x2x3"), Err(VectorError::ExtraData));
    assert_eq!(Vector2::from_str_intern("1x2x"), Err(VectorError::ExtraData));
}

#[test]
fn a_scalar_error_is_reported_before_extra_data() {
    assert_eq!(Vector2::from_str_intern("ax2x3"), Err(VectorError::InvalidDigit));
}

#[test]
fn oversized_scalars_overflow() {
    assert_eq!(
        Vector2::from_str_intern("99999999999999999999999999x1"),
        Err(VectorError::Overflow)
    );
}

#[test]
fn scalar_parser_handles_bounds() {
    assert_eq!(Vector2::parse_split_iter("0"), Ok(0));
    assert_eq!(Vector2::parse_split_iter("007"), Ok(7));
    assert_eq!(Vector2::parse_split_iter("18446744073709551615"), Ok(usize::MAX));
    assert_eq!(
        Vector2::parse_split_iter("18446744073709551616"),
        Err(VectorError::Overflow)
    );
    assert_eq!(Vector2::parse_split_iter(""), Err(VectorError::EmptyScalar));
}

#[test]
fn scalars_accept_an_optional_leading_plus() {
    // The scalar grammar is usize's own: one optional plus sign, then
    // decimal digits.
    assert_eq!(Vector2::parse_split_iter("+7"), Ok(7));
    assert_eq!(Vector2::parse_split_iter("+0"), Ok(0));
    assert_eq!(Vector2::parse_split_iter("+007"), Ok(7));
    assert_eq!(Vector2::parse_split_iter("+18446744073709551615"), Ok(usize::MAX));
    assert_eq!(
        Vector2::parse_split_iter("+18446744073709551616"),
        Err(VectorError::Overflow)
    );
    assert_eq!(Vector2::parse_split_iter("+"), Err(VectorError::InvalidDigit));
    assert_eq!(Vector2::parse_split_iter("++7"), Err(VectorError::InvalidDigit));
    assert_eq!(Vector2::parse_split_iter("7+"), Err(VectorError::InvalidDigit));

    let v = Vector2::from_str_intern("+12x+34").unwrap();
    assert_eq!(v.x, 12);
    assert_eq!(v.y, 34);
    assert_eq!(Vector2::from_str_intern("+x34"), Err(VectorError::InvalidDigit));
}
