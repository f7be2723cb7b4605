use bibber::number::{check_number, parse_count};

#[test]
fn plain_numbers_are_accepted() {
    for s in [
        "0", "5", "5.", ".5", "0.5", "12.34", "+7", "-7", "-0.5", "5e10", "5E10", "5e+10",
        "5e-10", "1.5e-3", ".5e2", "5.e2",
    ] {
        assert!(check_number(s), "{s} should be accepted");
    }
}

#[test]
fn special_words_are_accepted() {
    for s in ["inf", "Inf", "INF", "+inf", "-inf", "infinity", "Infinity", "nan", "NaN", "NAN"] {
        assert!(check_number(s), "{s} should be accepted");
    }
}

#[test]
fn malformed_numbers_are_rejected() {
    for s in [
        "", "+", "-", ".", "e5", "5e", "5e+", "1.2.3", "--5", "5 ", " 5", "0x10", "abc", "in",
        "infin", "nans", "5.5.e1", "1e5e5", "5,0",
    ] {
        assert!(!check_number(s), "{s} should be rejected");
    }
}

#[test]
fn count_truncates_toward_zero() {
    assert_eq!(parse_count("42"), Some(42));
    assert_eq!(parse_count("42.9"), Some(42));
    assert_eq!(parse_count("-42.9"), Some(0));
    assert_eq!(parse_count("+3"), Some(3));
    assert_eq!(parse_count("0.0000"), Some(0));
}

#[test]
fn count_applies_exponents_exactly() {
    assert_eq!(parse_count("1e3"), Some(1000));
    assert_eq!(parse_count("2.5e2"), Some(250));
    assert_eq!(parse_count("2.5e1"), Some(25));
    assert_eq!(parse_count("2500e-2"), Some(25));
    assert_eq!(parse_count("123.456e1"), Some(1234));
    assert_eq!(parse_count("9e-99"), Some(0));
    assert_eq!(parse_count("0e99999999999999999999999"), Some(0));
}

#[test]
fn count_saturates_at_the_machine_range() {
    assert_eq!(parse_count("1e30"), Some(usize::MAX));
    assert_eq!(parse_count("99999999999999999999999999"), Some(usize::MAX));
    assert_eq!(parse_count("1e99999999999999999999999"), Some(usize::MAX));
    assert_eq!(parse_count("inf"), Some(usize::MAX));
    assert_eq!(parse_count("-inf"), Some(0));
    assert_eq!(parse_count("nan"), Some(0));
    assert_eq!(parse_count("-1e99999999999999999999999"), Some(0));
}

#[test]
fn count_rejects_what_the_grammar_rejects() {
    assert_eq!(parse_count(""), None);
    assert_eq!(parse_count("1.2.3"), None);
    assert_eq!(parse_count("five"), None);
}
