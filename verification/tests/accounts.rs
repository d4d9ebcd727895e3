use sametime::auth::{
    authenticate, ensure_username_free, expiry_fits_hours, generate_jwt, hash_password_with_salt, issue_token_at,
    new_account, validate_registration, UserRow, PASSWORD_COST,
};
use sametime::error::AppError;
use sametime::models::RegisterRequest;

fn req(u: &str, p: &str) -> RegisterRequest {
    RegisterRequest { username: u.to_string(), password: p.to_string() }
}

fn claims(token: &str, secret: &str) -> serde_json::Value {
    let mut validation = jsonwebtoken::Validation::new(jsonwebtoken::Algorithm::HS256);
    validation.validate_exp = false;
    validation.required_spec_claims.clear();
    jsonwebtoken::decode::<serde_json::Value>(
        token,
        &jsonwebtoken::DecodingKey::from_secret(secret.as_bytes()),
        &validation,
    )
    .unwrap()
    .claims
}

#[test]
fn registration_rules() {
    assert!(validate_registration(&req("alice", "abcd")).is_ok());
    assert!(validate_registration(&req("alice", "密码")).is_ok());
    for (u, p) in [("", "abcd"), ("  \t", "abcd"), ("bob", "abc"), ("bob", "é")] {
        match validate_registration(&req(u, p)) {
            Err(AppError::BadRequest(m)) => assert_eq!(
                m,
                "Username cannot be empty and password must be at least 4 characters"
            ),
            _ => panic!("expected refusal for {:?}/{:?}", u, p),
        }
    }
}

#[test]
fn taken_username_conflicts() {
    assert!(ensure_username_free(0).is_ok());
    match ensure_username_free(1) {
        Err(AppError::Conflict(m)) => assert_eq!(m, "Username already taken"),
        _ => panic!("expected conflict"),
    }
}

#[test]
fn registered_password_logs_in() {
    let acct = new_account("hunter22").unwrap();
    assert_eq!(acct.user_id.len(), 36);
    assert_eq!(acct.password_hash.len(), 60);
    assert!(acct.password_hash.starts_with("$2b$10$"));
    let row = UserRow {
        id: acct.user_id.clone(),
        username: "alice".to_string(),
        password_hash: acct.password_hash.clone(),
    };
    let (id, name) = authenticate(Some(row), "hunter22").unwrap();
    assert_eq!(id, acct.user_id);
    assert_eq!(name, "alice");
}

#[test]
fn wrong_password_or_unknown_user_is_unauthorized() {
    let acct = new_account("right-pass").unwrap();
    let row = UserRow { id: "1".to_string(), username: "a".to_string(), password_hash: acct.password_hash };
    match authenticate(Some(row), "wrong-pass") {
        Err(AppError::Unauthorized(m)) => assert_eq!(m, "Invalid username or password"),
        _ => panic!("expected unauthorized"),
    }
    match authenticate(None, "x") {
        Err(AppError::Unauthorized(m)) => assert_eq!(m, "Invalid username or password"),
        _ => panic!("expected unauthorized"),
    }
}

#[test]
fn unreadable_hash_is_internal_error() {
    let row = UserRow { id: "1".to_string(), username: "a".to_string(), password_hash: "garbage".to_string() };
    match authenticate(Some(row), "x") {
        Err(AppError::Internal(m)) => assert!(m.starts_with("Failed to verify password: ")),
        _ => panic!("expected internal error"),
    }
}

#[test]
fn token_carries_claims() {
    let t = issue_token_at("uid-1", "alice", "secret", 2, 1_000).unwrap();
    let c = claims(&t, "secret");
    assert_eq!(c["sub"], "uid-1");
    assert_eq!(c["username"], "alice");
    assert_eq!(c["iat"], 1_000);
    assert_eq!(c["exp"], 1_000 + 2 * 3600);
    let again = issue_token_at("uid-1", "alice", "secret", 2, 1_000).unwrap();
    assert_eq!(t, again);
    let payload = t.split('.').nth(1).unwrap().to_string();
    let other = issue_token_at("uid-1", "alice", "secret", 2, 1_001).unwrap();
    assert_ne!(payload, other.split('.').nth(1).unwrap());
}

#[test]
fn token_claims_are_in_declaration_order() {
    let t = issue_token_at("u", "n", "k", 1, 5).unwrap();
    let payload = t.split('.').nth(1).unwrap();
    // {"sub":"u","username":"n","exp":3605,"iat":5} in base64url without padding
    assert_eq!(payload, "eyJzdWIiOiJ1IiwidXNlcm5hbWUiOiJuIiwiZXhwIjozNjA1LCJpYXQiOjV9");
}

#[test]
fn token_now_expires_later() {
    let t = generate_jwt("u", "bob", "k", 168).unwrap();
    let c = claims(&t, "k");
    let iat = c["iat"].as_i64().unwrap();
    assert_eq!(c["exp"].as_i64().unwrap(), iat + 168 * 3600);
    assert!((chrono::Utc::now().timestamp() - iat).abs() < 60);
}

#[test]
fn token_lifetime_bounds() {
    assert!(expiry_fits_hours(168));
    assert!(expiry_fits_hours(-168));
    assert!(expiry_fits_hours(0));
    assert!(!expiry_fits_hours(i64::MAX));
    assert!(!expiry_fits_hours(i64::MIN));
    assert!(!expiry_fits_hours(2_562_047_788_015_216));
}

#[test]
fn salted_hash_is_bcrypt_cost_ten() {
    let salt = [7u8; 16];
    let h = hash_password_with_salt("hunter22", salt);
    assert_eq!(PASSWORD_COST, 10);
    let want = bcrypt::hash_with_salt("hunter22", 10, salt).unwrap().format_for_version(bcrypt::Version::TwoB);
    assert_eq!(h, want);
    assert_eq!(h.len(), 60);
    assert!(h.starts_with("$2b$10$"));
    assert!(bcrypt::verify("hunter22", &h).unwrap());
    assert!(!bcrypt::verify("hunter23", &h).unwrap());
    assert_eq!(hash_password_with_salt("hunter22", salt), h);
    assert_ne!(hash_password_with_salt("hunter22", [8u8; 16]), h);
}

#[test]
fn new_accounts_get_fresh_salts() {
    let a = new_account("same-pass").unwrap();
    let b = new_account("same-pass").unwrap();
    assert_ne!(a.password_hash, b.password_hash);
    assert!(bcrypt::verify("same-pass", &a.password_hash).unwrap());
    assert!(bcrypt::verify("same-pass", &b.password_hash).unwrap());
}
