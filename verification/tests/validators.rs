use rustical::ip_input::{not_localhost, valid_ip};
use rustical::validators::{
    alphanumeric, email, length_range, max_length, min_length, numeric, required, run_chain,
    Validator,
};

#[test]
fn required_rejects_blank_values() {
    assert_eq!(required().check(""), Err("This field is required".to_string()));
    assert_eq!(required().check("  \t "), Err("This field is required".to_string()));
    assert_eq!(required().check(" a "), Ok(()));
}

#[test]
fn min_length_counts_characters() {
    assert_eq!(min_length(3).check("ab"), Err("Minimum 3 characters required".to_string()));
    assert_eq!(min_length(3).check("abc"), Ok(()));
    assert_eq!(min_length(2).check("日本"), Ok(()));
    assert_eq!(min_length(120).check("x"), Err("Minimum 120 characters required".to_string()));
    assert_eq!(min_length(0).check(""), Ok(()));
}

#[test]
fn max_length_counts_characters() {
    assert_eq!(max_length(3).check("abcd"), Err("Maximum 3 characters allowed".to_string()));
    assert_eq!(max_length(3).check("abc"), Ok(()));
    assert_eq!(max_length(0).check("a"), Err("Maximum 0 characters allowed".to_string()));
}

#[test]
fn length_range_checks_both_ends() {
    assert_eq!(length_range(2, 4).check("a"), Err("Minimum 2 characters required".to_string()));
    assert_eq!(
        length_range(2, 4).check("abcde"),
        Err("Maximum 4 characters allowed".to_string())
    );
    assert_eq!(length_range(2, 4).check("abc"), Ok(()));
}

#[test]
fn email_asks_for_an_at_sign_and_a_dot() {
    assert_eq!(email().check("a@b.c"), Ok(()));
    assert_eq!(email().check("a@b"), Err("Invalid email address".to_string()));
    assert_eq!(email().check("a.b"), Err("Invalid email address".to_string()));
    assert_eq!(email().check(""), Err("Invalid email address".to_string()));
}

#[test]
fn numeric_and_alphanumeric_accept_the_empty_value() {
    assert_eq!(numeric().check(""), Ok(()));
    assert_eq!(numeric().check("123"), Ok(()));
    assert_eq!(numeric().check("12a"), Err("Only numbers allowed".to_string()));
    assert_eq!(alphanumeric().check(""), Ok(()));
    assert_eq!(alphanumeric().check("abc123"), Ok(()));
    assert_eq!(
        alphanumeric().check("abc 123"),
        Err("Only letters and numbers allowed".to_string())
    );
}

#[test]
fn address_rules_accept_everything() {
    assert_eq!(valid_ip(), Validator::Accept);
    assert_eq!(not_localhost(), Validator::Accept);
    assert_eq!(valid_ip().check("anything"), Ok(()));
}

#[test]
fn chain_stops_at_the_first_failure() {
    let rules = vec![required(), min_length(3), email()];
    assert_eq!(run_chain(&rules, ""), Err("This field is required".to_string()));
    assert_eq!(run_chain(&rules, "ab"), Err("Minimum 3 characters required".to_string()));
    assert_eq!(run_chain(&rules, "abc"), Err("Invalid email address".to_string()));
    assert_eq!(run_chain(&rules, "a@b.c"), Ok(()));
    assert_eq!(run_chain(&Vec::new(), ""), Ok(()));
}
