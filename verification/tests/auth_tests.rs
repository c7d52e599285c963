use queuedesk::CoreError;
use queuedesk::auth::{after_credential_load, issue_token, ServiceCredential, TokenStep};

fn credential() -> ServiceCredential {
    ServiceCredential {
        client_email: "svc@example.iam".to_string(),
        private_key: "SECRET-REDACTED".to_string(),
        token_uri: "https://oauth2.example/token".to_string(),
    }
}

#[test]
fn missing_credential_fails_before_any_exchange() {
    let step = after_credential_load(None);
    assert!(matches!(step, TokenStep::Failed(CoreError::Auth)));
}

#[test]
fn loaded_credential_moves_to_exchange() {
    let step = after_credential_load(Some(credential()));
    match step {
        TokenStep::Exchange(c) => assert_eq!(c.client_email, "svc@example.iam"),
        TokenStep::Failed(_) => panic!("credential was loaded"),
    }
}

#[test]
fn rejected_exchange_is_auth_error() {
    assert!(matches!(issue_token(None, None, 0), Err(CoreError::Auth)));
}

#[test]
fn empty_token_string_is_auth_error() {
    assert!(matches!(issue_token(Some(String::new()), Some(100), 0), Err(CoreError::Auth)));
}

#[test]
fn expired_token_is_auth_error() {
    assert!(matches!(issue_token(Some("tok".to_string()), Some(5), 10), Err(CoreError::Auth)));
}

#[test]
fn fresh_token_is_issued_unchanged() {
    let t = issue_token(Some("tok".to_string()), Some(100), 10).unwrap();
    assert_eq!(t.token(), "tok");
    assert_eq!(t.expires_at, Some(100));
}

#[test]
fn token_without_expiry_is_issued() {
    let t = issue_token(Some("tok".to_string()), None, 10).unwrap();
    assert_eq!(t.token(), "tok");
    assert!(t.expires_at.is_none());
}
