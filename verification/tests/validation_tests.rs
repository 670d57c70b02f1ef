use contacts::errors::Error;
use contacts::validation::{
    get_valid_phone_no_outcome, is_email_valid, is_name_valid, is_phone_no_valid_fallback,
    NumberVerification,
};

#[test]
fn email_pattern_accepts_the_reference_address() {
    assert!(is_email_valid("a.b+c@sub.example.com"));
}

#[test]
fn email_pattern_rejects_non_addresses() {
    assert!(!is_email_valid("not-an-email"));
    assert!(!is_email_valid(""));
    assert!(!is_email_valid("@example.com"));
    assert!(!is_email_valid("a@"));
}

#[test]
fn email_pattern_accepts_simple_addresses() {
    assert!(is_email_valid("bob@example.com"));
    assert!(is_email_valid("a@b.co"));
    assert!(is_email_valid("user_1+tag@mail-server.example.org"));
}

#[test]
fn email_pattern_is_anchored_at_the_start_but_not_the_end() {
    assert!(is_email_valid("bob@example.com/extra stuff"));
    assert!(!is_email_valid(" bob@example.com"));
}

#[test]
fn email_local_part_must_not_start_or_end_with_a_dot() {
    assert!(!is_email_valid(".bob@example.com"));
    assert!(!is_email_valid("bob.@example.com"));
    assert!(is_email_valid("b.ob@example.com"));
}

#[test]
fn email_domain_needs_a_final_label_of_letters() {
    assert!(!is_email_valid("a@b.c"));
    assert!(!is_email_valid("a@b"));
    assert!(!is_email_valid("a@b..com"));
    assert!(!is_email_valid("a@-b.com"));
}

#[test]
fn email_pattern_is_lowercase_only() {
    assert!(!is_email_valid("Bob@example.com"));
    assert!(!is_email_valid("bob@Example.com"));
}

#[test]
fn name_check_flags_empty_and_overlong_names_as_invalid() {
    assert!(is_name_valid(""));
    assert!(is_name_valid(&"x".repeat(256)));
    assert!(!is_name_valid("Bob"));
    assert!(!is_name_valid(&"x".repeat(255)));
}

#[test]
fn phone_fallback_accepts_german_numbers() {
    assert!(is_phone_no_valid_fallback(491701234567));
    assert!(is_phone_no_valid_fallback(49123456789));
}

#[test]
fn phone_fallback_rejects_other_numbers() {
    assert!(!is_phone_no_valid_fallback(1234567890));
    assert!(!is_phone_no_valid_fallback(4912345678));
    assert!(!is_phone_no_valid_fallback(0));
}

#[test]
fn phone_fallback_searches_anywhere_in_the_decimal_form() {
    // the pattern is unanchored, so a prefix before `49` still matches
    assert!(is_phone_no_valid_fallback(149123456789));
    assert!(is_phone_no_valid_fallback(-491701234567));
}

#[test]
fn successful_response_decides_by_validity_and_country() {
    let de = NumberVerification {
        valid: true,
        country_code: "DE".to_string(),
    };
    assert_eq!(Ok(true), get_valid_phone_no_outcome(491701234567, 200, Ok(de)));
    let us = NumberVerification {
        valid: true,
        country_code: "US".to_string(),
    };
    assert_eq!(Ok(false), get_valid_phone_no_outcome(491701234567, 200, Ok(us)));
    let invalid = NumberVerification {
        valid: false,
        country_code: "DE".to_string(),
    };
    assert_eq!(Ok(false), get_valid_phone_no_outcome(491701234567, 200, Ok(invalid)));
}

#[test]
fn undecodable_success_payload_is_an_error() {
    let result = get_valid_phone_no_outcome(491701234567, 200, Err("bad json".to_string()));
    assert_eq!(Err(Error::ReqwestMiddleware("bad json".to_string())), result);
}

#[test]
fn client_error_is_surfaced_even_when_the_fallback_would_accept() {
    assert!(is_phone_no_valid_fallback(491701234567));
    let result = get_valid_phone_no_outcome(491701234567, 404, Err(String::new()));
    assert_eq!(
        Err(Error::ReqwestMiddleware(
            "Unexpected status_code: 404".to_string()
        )),
        result
    );
}

#[test]
fn server_error_falls_back_to_the_local_check() {
    let accepted = get_valid_phone_no_outcome(491701234567, 500, Err(String::new()));
    assert_eq!(Ok(true), accepted);
    let rejected = get_valid_phone_no_outcome(1234567890, 503, Err(String::new()));
    assert_eq!(Ok(false), rejected);
}
