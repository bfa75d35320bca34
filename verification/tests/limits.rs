use morse_decoder::config::parse_limit;

#[test]
fn plain_numbers_parse() {
    assert_eq!(parse_limit("0"), Some(0));
    assert_eq!(parse_limit("1"), Some(1));
    assert_eq!(parse_limit("4096"), Some(4096));
    assert_eq!(parse_limit("0010"), Some(10));
}

#[test]
fn leading_plus_is_accepted() {
    assert_eq!(parse_limit("+42"), Some(42));
}

#[test]
fn largest_value_parses() {
    let max = format!("{}", usize::MAX);
    assert_eq!(parse_limit(&max), Some(usize::MAX));
}

#[test]
fn empty_and_sign_only_are_rejected() {
    assert_eq!(parse_limit(""), None);
    assert_eq!(parse_limit("+"), None);
}

#[test]
fn stray_characters_are_rejected() {
    assert_eq!(parse_limit("12a"), None);
    assert_eq!(parse_limit("-1"), None);
    assert_eq!(parse_limit(" 1"), None);
    assert_eq!(parse_limit("1 "), None);
    assert_eq!(parse_limit("1_000"), None);
    assert_eq!(parse_limit("++1"), None);
}

#[test]
fn overflow_is_rejected() {
    let too_big = format!("{}0", usize::MAX);
    assert_eq!(parse_limit(&too_big), None);
    assert_eq!(parse_limit("99999999999999999999999999999999"), None);
}

#[test]
fn agrees_with_std_parsing() {
    for s in ["0", "7", "+7", "123456789", "007", "", "+", "x", "1.5", "12e3"] {
        assert_eq!(parse_limit(s), s.parse::<usize>().ok(), "input {:?}", s);
    }
}
