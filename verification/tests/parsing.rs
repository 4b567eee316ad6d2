use cookbook::parsing::{parse_age, parse_i32, trim_ascii, AgeReaderError, ParseError};

#[test]
fn parses_plain_numbers() {
    assert_eq!(parse_i32(b"42"), Ok(42));
    assert_eq!(parse_i32(b"0"), Ok(0));
    assert_eq!(parse_i32(b"007"), Ok(7));
    assert_eq!(parse_i32(b"+42"), Ok(42));
    assert_eq!(parse_i32(b"-42"), Ok(-42));
}

#[test]
fn parses_the_extremes_of_the_range() {
    assert_eq!(parse_i32(b"2147483647"), Ok(i32::MAX));
    assert_eq!(parse_i32(b"-2147483648"), Ok(i32::MIN));
}

#[test]
fn rejects_values_out_of_range() {
    assert_eq!(parse_i32(b"2147483648"), Err(ParseError::OutOfRange));
    assert_eq!(parse_i32(b"-2147483649"), Err(ParseError::OutOfRange));
    assert_eq!(parse_i32(b"99999999999999999999"), Err(ParseError::OutOfRange));
}

#[test]
fn rejects_text_that_is_no_number() {
    assert_eq!(parse_i32(b""), Err(ParseError::Empty));
    assert_eq!(parse_i32(b"+"), Err(ParseError::InvalidDigit));
    assert_eq!(parse_i32(b"-"), Err(ParseError::InvalidDigit));
    assert_eq!(parse_i32(b"12x"), Err(ParseError::InvalidDigit));
    assert_eq!(parse_i32(b" 12"), Err(ParseError::InvalidDigit));
    assert_eq!(parse_i32(b"--12"), Err(ParseError::InvalidDigit));
}

#[test]
fn trims_ascii_whitespace_from_both_ends() {
    assert_eq!(trim_ascii(b"  42 \n"), b"42");
    assert_eq!(trim_ascii(b"\t\r\nage\t"), b"age");
    assert_eq!(trim_ascii(b"   "), b"");
    assert_eq!(trim_ascii(b""), b"");
    assert_eq!(trim_ascii(b"no trim"), b"no trim");
}

#[test]
fn reads_a_positive_age() {
    assert_eq!(parse_age(b"30\n"), Ok(30));
    assert_eq!(parse_age(b"  1 "), Ok(1));
}

#[test]
fn rejects_an_age_that_is_not_positive() {
    assert_eq!(parse_age(b"0"), Err(AgeReaderError::NegativeAge()));
    assert_eq!(parse_age(b"-30"), Err(AgeReaderError::NegativeAge()));
}

#[test]
fn rejects_text_without_a_number_as_parse_error() {
    assert_eq!(parse_age(b"young"), Err(AgeReaderError::Parse()));
    assert_eq!(parse_age(b""), Err(AgeReaderError::Parse()));
    assert_eq!(parse_age(b"123456789123"), Err(AgeReaderError::Parse()));
}
