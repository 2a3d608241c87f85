use http_util::{parse_decimal, BytesContentRange, ErrorKind, IntegerFault, Operation};

#[test]
fn exact_range_with_total() {
    assert_eq!(
        BytesContentRange::parse("bytes 0-499/1234"),
        Ok(BytesContentRange::Exact { start: 0, end: 499, total: Some(1234) })
    );
}

#[test]
fn exact_range_with_unknown_total() {
    assert_eq!(
        BytesContentRange::parse("bytes 42-1233/*"),
        Ok(BytesContentRange::Exact { start: 42, end: 1233, total: None })
    );
}

#[test]
fn unsatisfied_range_with_total() {
    assert_eq!(
        BytesContentRange::parse("bytes */1234"),
        Ok(BytesContentRange::Unsatisfied { total: Some(1234) })
    );
}

#[test]
fn unsatisfied_range_with_unknown_total() {
    assert_eq!(
        BytesContentRange::parse("bytes */*"),
        Ok(BytesContentRange::Unsatisfied { total: None })
    );
}

#[test]
fn zero_total_is_not_unknown_total() {
    assert_eq!(
        BytesContentRange::parse("bytes */0"),
        Ok(BytesContentRange::Unsatisfied { total: Some(0) })
    );
    assert_ne!(
        BytesContentRange::parse("bytes */0"),
        BytesContentRange::parse("bytes */*")
    );
}

#[test]
fn single_byte_and_largest_ranges() {
    assert_eq!(
        BytesContentRange::parse("bytes 0-0/1"),
        Ok(BytesContentRange::Exact { start: 0, end: 0, total: Some(1) })
    );
    assert_eq!(
        BytesContentRange::parse("bytes 7-7/*"),
        Ok(BytesContentRange::Exact { start: 7, end: 7, total: None })
    );
    assert_eq!(
        BytesContentRange::parse("bytes 0-18446744073709551614/18446744073709551615"),
        Ok(BytesContentRange::Exact {
            start: 0,
            end: u64::MAX - 1,
            total: Some(u64::MAX)
        })
    );
    assert_eq!(
        BytesContentRange::parse("bytes 18446744073709551615-18446744073709551615/*"),
        Ok(BytesContentRange::Exact { start: u64::MAX, end: u64::MAX, total: None })
    );
}

#[test]
fn numbers_may_have_leading_zeros_and_a_plus_sign() {
    assert_eq!(
        BytesContentRange::parse("bytes 000-0499/01234"),
        Ok(BytesContentRange::Exact { start: 0, end: 499, total: Some(1234) })
    );
    assert_eq!(
        BytesContentRange::parse("bytes +1-+2/+3"),
        Ok(BytesContentRange::Exact { start: 1, end: 2, total: Some(3) })
    );
}

fn assert_malformed(text: &str) {
    let e = BytesContentRange::parse(text).expect_err(text);
    assert_eq!(e.kind(), ErrorKind::MalformedRange, "{:?}", text);
    assert_eq!(e.operation(), Operation::ParseBytesContentRange, "{:?}", text);
    assert_eq!(e.source(), None, "{:?}", text);
}

#[test]
fn inverted_bounds_are_malformed() {
    assert_malformed("bytes 10-5/100");
    assert_malformed("bytes 1-0/*");
}

#[test]
fn end_not_below_total_is_malformed() {
    assert_malformed("bytes 0-100/100");
    assert_malformed("bytes 0-499/100");
    assert_malformed("bytes 0-0/0");
}

#[test]
fn wrong_unit_is_malformed() {
    assert_malformed("");
    assert_malformed("bytes");
    assert_malformed("bytes ");
    assert_malformed("Bytes 0-499/1234");
    assert_malformed("BYTES 0-499/1234");
    assert_malformed("items 0-499/1234");
    assert_malformed("bytes=0-499/1234");
    assert_malformed("bytes0-499/1234");
    assert_malformed("bytes  0-499/1234");
    assert_malformed(" bytes 0-499/1234");
    assert_malformed("bytes\t0-499/1234");
}

#[test]
fn missing_separator_is_malformed() {
    assert_malformed("bytes 0-499");
    assert_malformed("bytes 0499/1234");
    assert_malformed("bytes 0-499 1234");
    assert_malformed("bytes */");
    assert_malformed("bytes /1234");
    assert_malformed("bytes 0-/1234");
    assert_malformed("bytes -499/1234");
    assert_malformed("bytes -/1234");
    assert_malformed("bytes 0-499/");
    assert_malformed("bytes *");
    assert_malformed("bytes /");
}

#[test]
fn non_numeric_token_is_malformed() {
    assert_malformed("bytes a-499/1234");
    assert_malformed("bytes 0-b/1234");
    assert_malformed("bytes 0-499/c");
    assert_malformed("bytes 0x0-499/1234");
    assert_malformed("bytes 0-4.9/1234");
    assert_malformed("bytes 0--499/1234");
    assert_malformed("bytes -1-499/1234");
    assert_malformed("bytes 0-499/-1");
    assert_malformed("bytes **/1234");
    assert_malformed("bytes */**");
    assert_malformed("bytes *-*/1234");
    assert_malformed("bytes 0-*/1234");
    assert_malformed("bytes 0-\u{664}99/1234");
    assert_malformed("bytes 0-499/\u{ff11}");
}

#[test]
fn number_beyond_64_bits_is_malformed() {
    assert_malformed("bytes 0-18446744073709551616/*");
    assert_malformed("bytes 18446744073709551616-18446744073709551617/*");
    assert_malformed("bytes */18446744073709551616");
}

#[test]
fn trailing_or_inner_garbage_is_malformed() {
    assert_malformed("bytes 0-499/1234 ");
    assert_malformed("bytes 0-499/1234\n");
    assert_malformed("bytes 0-499/1234/5");
    assert_malformed("bytes 0-499/1234,");
    assert_malformed("bytes 0 -499/1234");
    assert_malformed("bytes 0- 499/1234");
    assert_malformed("bytes 0-499 /1234");
    assert_malformed("bytes 0-499/ 1234");
    assert_malformed("bytes 0-499-500/1234");
    assert_malformed("bytes */1234/");
    assert_malformed("bytes * /1234");
}

#[test]
fn decimal_numbers() {
    assert_eq!(parse_decimal("0"), Ok(0));
    assert_eq!(parse_decimal("9"), Ok(9));
    assert_eq!(parse_decimal("10"), Ok(10));
    assert_eq!(parse_decimal("1234567890"), Ok(1234567890));
    assert_eq!(parse_decimal("+0"), Ok(0));
    assert_eq!(parse_decimal("+18446744073709551615"), Ok(u64::MAX));
    assert_eq!(parse_decimal("000000000000000000000000000001"), Ok(1));
    assert_eq!(parse_decimal("18446744073709551609"), Ok(u64::MAX - 6));
    assert_eq!(parse_decimal("18446744073709551610"), Ok(u64::MAX - 5));
}

#[test]
fn decimal_faults() {
    assert_eq!(parse_decimal(""), Err(IntegerFault::Empty));
    assert_eq!(parse_decimal("+"), Err(IntegerFault::InvalidDigit));
    assert_eq!(parse_decimal("++1"), Err(IntegerFault::InvalidDigit));
    assert_eq!(parse_decimal("1+"), Err(IntegerFault::InvalidDigit));
    assert_eq!(parse_decimal("-"), Err(IntegerFault::InvalidDigit));
    assert_eq!(parse_decimal("-0"), Err(IntegerFault::InvalidDigit));
    assert_eq!(parse_decimal("/"), Err(IntegerFault::InvalidDigit));
    assert_eq!(parse_decimal(":"), Err(IntegerFault::InvalidDigit));
    assert_eq!(parse_decimal("1_000"), Err(IntegerFault::InvalidDigit));
    assert_eq!(parse_decimal("\u{e9}"), Err(IntegerFault::InvalidDigit));
    assert_eq!(parse_decimal("+\u{e9}"), Err(IntegerFault::InvalidDigit));
    assert_eq!(parse_decimal("1\u{e9}"), Err(IntegerFault::InvalidDigit));
    assert_eq!(parse_decimal("18446744073709551616"), Err(IntegerFault::Overflow));
    assert_eq!(parse_decimal("18446744073709551620"), Err(IntegerFault::Overflow));
    assert_eq!(parse_decimal("184467440737095516150"), Err(IntegerFault::Overflow));
    assert_eq!(parse_decimal("184467440737095516160x"), Err(IntegerFault::InvalidDigit));
}
