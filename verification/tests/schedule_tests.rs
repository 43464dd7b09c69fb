use admintui::schedule::validate;

#[test]
fn validate_accepts_standard_forms() {
    assert!(validate("* * * * *"));
    assert!(validate("0 0 1 1 *"));
    assert!(validate("*/15 9-17 * * 1-5"));
}

#[test]
fn validate_rejects_malformed() {
    assert!(!validate("not a schedule"));
    assert!(!validate("60 * * * *"));
}

#[test]
fn validate_checks_field_count() {
    assert!(!validate("* * * *"));
    assert!(!validate("* * * * * *"));
    assert!(!validate(""));
}

#[test]
fn validate_ignores_surrounding_whitespace() {
    assert!(validate("  0 5 * * *  "));
    assert!(validate("0\t5 * * *"));
}

#[test]
fn validate_accepts_lists_and_ranges() {
    assert!(validate("0,15,30,45 * * * *"));
    assert!(validate("1-5 9-17 1-31 1-12 0-6"));
    assert!(validate("0 0 * * 7"));
    assert!(validate("5,10-20,59 * * * *"));
}

#[test]
fn validate_checks_domains() {
    assert!(!validate("* 24 * * *"));
    assert!(!validate("* * 0 * *"));
    assert!(!validate("* * 32 * *"));
    assert!(!validate("* * * 0 *"));
    assert!(!validate("* * * 13 *"));
    assert!(!validate("0 0 * * 8"));
}

#[test]
fn validate_checks_ranges_and_steps() {
    assert!(!validate("5-3 * * * *"));
    assert!(!validate("*/0 * * * *"));
    assert!(validate("*/59 * * * *"));
    assert!(!validate("1,,2 * * * *"));
    assert!(!validate("1- * * * *"));
    assert!(!validate("-5 * * * *"));
    assert!(!validate("a-b * * * *"));
    assert!(!validate("1,x * * * *"));
}
