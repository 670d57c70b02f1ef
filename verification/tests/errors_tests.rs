use contacts::contact::{Contact, ContactId};
use contacts::db::{fetch_failure_outcome, mutation_failure_error};
use contacts::errors::Error;

#[test]
fn messages_name_each_failure() {
    assert_eq!(
        "Pagination info (page_no or page_size) cannot be converted from String to u32: x7",
        Error::StringToU32("x7".to_string()).message()
    );
    assert_eq!(
        "Database specific error: connection reset",
        Error::Db("connection reset".to_string()).message()
    );
    assert_eq!(
        "Invalid value provided for the HTTP Authorization header",
        Error::InvalidAuthHeader.message()
    );
    assert_eq!(
        "The scheme provided (Bearer) is not Basic",
        Error::InvalidScheme("Bearer".to_string()).message()
    );
    assert_eq!(
        "The value have an invalid base64 encoding: bad pad",
        Error::InvalidBase64Value("bad pad".to_string()).message()
    );
    assert_eq!(
        "Invalid UTF-8 Provided: stray byte",
        Error::InvalidUtf8Value("stray byte".to_string()).message()
    );
    assert_eq!(
        "The external validation api call failed timeout",
        Error::ReqwestMiddleware("timeout".to_string()).message()
    );
}

#[test]
fn not_found_message_carries_the_identifier() {
    assert_eq!(
        "Entity with provided ID (42) is not found in the repository.",
        Error::NotFound { id: 42 }.message()
    );
    assert_eq!(
        "Entity with provided ID (0) is not found in the repository.",
        Error::NotFound { id: 0 }.message()
    );
    assert_eq!(
        "Entity with provided ID (-7) is not found in the repository.",
        Error::NotFound { id: -7 }.message()
    );
}

#[test]
fn absent_row_on_fetch_is_an_empty_option() {
    let outcome: Result<Option<Contact>, Error> =
        fetch_failure_outcome(true, "row not found".to_string());
    assert!(matches!(outcome, Ok(None)));
}

#[test]
fn other_fetch_faults_are_storage_errors() {
    let outcome = fetch_failure_outcome(false, "broken pipe".to_string());
    assert!(matches!(outcome, Err(Error::Db(m)) if m == "broken pipe"));
}

#[test]
fn absent_row_on_mutation_is_not_found_with_the_id() {
    let e = mutation_failure_error(true, "row not found".to_string(), ContactId(9));
    assert_eq!(Error::NotFound { id: 9 }, e);
}

#[test]
fn other_mutation_faults_are_storage_errors() {
    let e = mutation_failure_error(false, "deadlock".to_string(), ContactId(9));
    assert_eq!(Error::Db("deadlock".to_string()), e);
}
