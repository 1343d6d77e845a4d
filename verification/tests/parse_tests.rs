use countdown::parse::parse_timer;
use countdown::parse::ParseError;

#[test]
fn it_should_parse_a_time_with_only_seconds() {
    assert_eq!(10.0, parse_timer(&"10".to_string()).unwrap() as f64);
}

#[test]
fn it_should_parse_a_time_with_minutes_and_seconds() {
    assert_eq!(70.0, parse_timer(&"01:10".to_string()).unwrap() as f64);
}

#[test]
fn it_should_parse_a_time_with_hours_minutes_and_seconds() {
    assert_eq!(3670.0, parse_timer(&"01:01:10".to_string()).unwrap() as f64);
}

#[test]
fn parse_single_field_is_seconds_not_minutes() {
    assert_eq!(90, parse_timer("90").unwrap());
}

#[test]
fn parse_zero() {
    assert_eq!(0, parse_timer("0").unwrap());
}

#[test]
fn parse_base_sixty_positional_sum() {
    assert_eq!(2 * 3600 + 3 * 60 + 4, parse_timer("2:3:4").unwrap());
    assert_eq!(59 * 60 + 59, parse_timer("59:59").unwrap());
}

#[test]
fn parse_largest_field_value() {
    assert_eq!(4294967295, parse_timer("4294967295").unwrap());
}

#[test]
fn parse_rejects_four_or_more_fields() {
    assert_eq!(Err(ParseError::InvalidFormat), parse_timer("1:2:3:4"));
    assert_eq!(Err(ParseError::InvalidFormat), parse_timer("0:0:0:0:0"));
}

#[test]
fn parse_rejects_non_numeric_fields() {
    assert_eq!(Err(ParseError::InvalidFormat), parse_timer("abc"));
    assert_eq!(Err(ParseError::InvalidFormat), parse_timer("1:2x:3"));
    assert_eq!(Err(ParseError::InvalidFormat), parse_timer("-5"));
    assert_eq!(Err(ParseError::InvalidFormat), parse_timer("+5"));
    assert_eq!(Err(ParseError::InvalidFormat), parse_timer("1 0"));
    assert_eq!(Err(ParseError::InvalidFormat), parse_timer("1:\u{e9}:3"));
}

#[test]
fn parse_rejects_empty_input_and_empty_fields() {
    assert_eq!(Err(ParseError::InvalidFormat), parse_timer(""));
    assert_eq!(Err(ParseError::InvalidFormat), parse_timer(":"));
    assert_eq!(Err(ParseError::InvalidFormat), parse_timer(":10"));
    assert_eq!(Err(ParseError::InvalidFormat), parse_timer("10:"));
    assert_eq!(Err(ParseError::InvalidFormat), parse_timer("1::2"));
}

#[test]
fn parse_rejects_field_beyond_u32_range() {
    assert_eq!(Err(ParseError::InvalidFormat), parse_timer("4294967296"));
    assert_eq!(Err(ParseError::InvalidFormat), parse_timer("99999999999"));
}

#[test]
fn parse_error_message_content() {
    let msg = ParseError::InvalidFormat.message();
    assert_eq!(
        "Invalid timer: countdown timer can only have 3 parts at most (hh:mm:ss)",
        msg.as_str()
    );
}
