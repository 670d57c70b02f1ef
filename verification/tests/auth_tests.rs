use base64::engine::general_purpose as base64_engine;
use base64::Engine;

use contacts::auth::AuthInMemoryMiddleware;
use contacts::errors::Error;

fn store(pairs: Vec<(&str, &str)>) -> AuthInMemoryMiddleware {
    let data: Vec<(String, String)> = pairs
        .into_iter()
        .map(|(k, v)| (k.to_string(), v.to_string()))
        .collect();
    AuthInMemoryMiddleware::new_with_data(data)
}

fn basic_header(user: &str, secret: &str) -> String {
    let encoded = base64_engine::STANDARD.encode(format!("{user}:{secret}"));
    format!("Basic {encoded}")
}

#[test]
fn test_http_basic_auth() {
    let key: String = "api_username".to_string();
    let value: String = "api_password".to_string();
    let existing_data: Vec<(String, String)> = vec![(key.clone(), value.clone())];
    let auth_middleware: AuthInMemoryMiddleware =
        AuthInMemoryMiddleware::new_with_data(existing_data);

    let credentials: String = format!("{key}:{value}");
    let encoded_credentials: String = base64_engine::STANDARD.encode(credentials);
    let header_value = format!("Basic {encoded_credentials}");

    let actual_result: Result<bool, Error> = auth_middleware.http_basic_auth(header_value);
    assert!(actual_result.is_ok());
    assert_eq!(Some(true), actual_result.ok());
}

#[test]
fn matching_credentials_accepted() {
    let auth = store(vec![("alice", "secret")]);
    let result = auth.http_basic_auth(basic_header("alice", "secret"));
    assert_eq!(Ok(true), result);
}

#[test]
fn wrong_secret_rejected_without_error() {
    let auth = store(vec![("alice", "wrong")]);
    let result = auth.http_basic_auth(basic_header("alice", "secret"));
    assert_eq!(Ok(false), result);
}

#[test]
fn unknown_user_rejected_without_error() {
    let auth = store(vec![("alice", "secret")]);
    let result = auth.http_basic_auth(basic_header("bob", "secret"));
    assert_eq!(Ok(false), result);
}

#[test]
fn bearer_scheme_rejected() {
    let auth = store(vec![("alice", "secret")]);
    let result = auth.http_basic_auth("Bearer xyz".to_string());
    assert_eq!(Err(Error::InvalidScheme("Bearer".to_string())), result);
}

#[test]
fn scheme_comparison_is_case_insensitive() {
    let auth = store(vec![("alice", "secret")]);
    let encoded = base64_engine::STANDARD.encode("alice:secret");
    assert_eq!(Ok(true), auth.http_basic_auth(format!("BASIC {encoded}")));
    assert_eq!(Ok(true), auth.http_basic_auth(format!("basic {encoded}")));
}

#[test]
fn header_without_space_rejected() {
    let auth = store(vec![("alice", "secret")]);
    let result = auth.http_basic_auth("Basic".to_string());
    assert_eq!(Err(Error::InvalidAuthHeader), result);
}

#[test]
fn credential_segment_with_space_rejected_as_base64_error() {
    let auth = store(vec![("alice", "secret")]);
    let result = auth.http_basic_auth("Basic abc def".to_string());
    assert_eq!(Err(Error::InvalidBase64Value("abc def".to_string())), result);
}

#[test]
fn malformed_base64_rejected() {
    let auth = store(vec![("alice", "secret")]);
    let result = auth.http_basic_auth("Basic !!!".to_string());
    assert!(matches!(result, Err(Error::InvalidBase64Value(_))));
}

#[test]
fn non_utf8_credentials_rejected() {
    let auth = store(vec![("alice", "secret")]);
    let encoded = base64_engine::STANDARD.encode([0xffu8, 0xfe, 0xfd]);
    let result = auth.http_basic_auth(format!("Basic {encoded}"));
    assert!(matches!(result, Err(Error::InvalidUtf8Value(_))));
}

#[test]
fn credentials_without_colon_rejected() {
    let auth = store(vec![("alice", "secret")]);
    let encoded = base64_engine::STANDARD.encode("alicesecret");
    let result = auth.http_basic_auth(format!("Basic {encoded}"));
    assert_eq!(Err(Error::InvalidAuthHeader), result);
}

#[test]
fn secret_may_contain_colons() {
    let auth = store(vec![("alice", "se:cret")]);
    let result = auth.http_basic_auth(basic_header("alice", "se:cret"));
    assert_eq!(Ok(true), result);
}

#[test]
fn later_entry_overwrites_earlier_secret() {
    let auth = store(vec![("alice", "old"), ("alice", "new")]);
    assert_eq!(Ok(true), auth.http_basic_auth(basic_header("alice", "new")));
    assert_eq!(Ok(false), auth.http_basic_auth(basic_header("alice", "old")));
}

#[test]
fn get_credentials_splits_at_first_colon() {
    let encoded = base64_engine::STANDARD.encode("user:pa:ss");
    let (user, secret) = contacts::auth::get_credentials(encoded).unwrap();
    assert_eq!("user", user);
    assert_eq!("pa:ss", secret);
}

#[test]
fn get_credentials_rejects_bad_base64() {
    let result = contacts::auth::get_credentials("not base64!".to_string());
    assert!(matches!(result, Err(Error::InvalidBase64Value(_))));
}
