use prestagest::credentials::AuthService;
use prestagest::error::AppError;
use prestagest::claims::claims_from_json;
use prestagest::token::{JwtService, TOKEN_LIFETIME_SECONDS};
use prestagest::users::{User, UserPayload};

const UNAUTHORIZED: &str = "Usuario no autorizado o token de acceso expirado-inválido";

fn payload() -> UserPayload {
    UserPayload::new(7, "Ana".to_string(), "59157423".to_string(), "admin".to_string())
}

fn user_with_hash(hash: String) -> User {
    User { id: 1, phone: "70000000".to_string(), name: "Luis".to_string(), password: hash, role: "user".to_string() }
}

fn is_unauthorized(r: &Result<UserPayload, AppError>) -> bool {
    matches!(r, Err(AppError::AuthError(m)) if m == UNAUTHORIZED)
}

#[test]
fn hashed_password_verifies() {
    let auth = AuthService::new("master-key".to_string());
    let h = auth.hash_password("s3cret-pass").unwrap();
    assert_ne!(h, "s3cret-pass");
    assert!(h.starts_with("$2b$08$"));
    assert_eq!(auth.verify_password("s3cret-pass", &h).unwrap(), true);
    assert_eq!(auth.verify_password("other-pass", &h).unwrap(), false);
}

#[test]
fn malformed_hash_is_a_server_error() {
    let auth = AuthService::new("master-key".to_string());
    assert!(matches!(auth.verify_password("x", "not-a-hash"), Err(AppError::ServerError(_))));
}

#[test]
fn master_password_opens_any_account() {
    let auth = AuthService::new("master-key".to_string());
    let garbage = user_with_hash("garbage".to_string());
    assert_eq!(auth.verify_credentials(&garbage, "master-key").unwrap(), true);
    assert!(matches!(auth.verify_credentials(&garbage, "master-key!"), Err(AppError::ServerError(_))));
    let real = user_with_hash(auth.hash_password("password1").unwrap());
    assert_eq!(auth.verify_credentials(&real, "master-key").unwrap(), true);
    assert_eq!(auth.verify_credentials(&real, "password1").unwrap(), true);
    assert_eq!(auth.verify_credentials(&real, "password2").unwrap(), false);
}

#[test]
fn roles_follow_admin_phone_list() {
    let auth = AuthService::new("m".to_string());
    assert_eq!(auth.assign_role("59157423"), "admin");
    assert_eq!(auth.assign_role("58583886"), "admin");
    assert_eq!(auth.assign_role("58945879"), "admin");
    assert_eq!(auth.assign_role("55555555"), "user");
    assert_eq!(auth.assign_role("591574230"), "user");
}

#[test]
fn claims_are_read_from_any_json_object() {
    let c = claims_from_json(r#"{"exp":5,"role":"user","x":[1,2],"phone":"ñandú","name":"A \"q\"\n","sub":-3}"#).unwrap();
    assert_eq!(c.sub, -3);
    assert_eq!(c.name, "A \"q\"\n");
    assert_eq!(c.phone, "ñandú");
    assert_eq!(c.role, "user");
    assert_eq!(c.exp, 5);
    let escaped = claims_from_json(r#"{"sub":1,"name":"A","phone":"p","role":"r","exp":1}"#).unwrap();
    assert_eq!(escaped.name, "A");
}

#[test]
fn incomplete_claims_are_refused() {
    assert!(claims_from_json(r#"{"sub":1,"name":"a","phone":"p","role":"r"}"#).is_none());
    assert!(claims_from_json(r#"{"sub":3000000000,"name":"a","phone":"p","role":"r","exp":1}"#).is_none());
    assert!(claims_from_json(r#"{"sub":"1","name":"a","phone":"p","role":"r","exp":1}"#).is_none());
    assert!(claims_from_json("not json").is_none());
    assert!(claims_from_json("").is_none());
}

#[test]
fn hashes_have_cost_eight_and_sixty_characters() {
    let auth = AuthService::new("m".to_string());
    let h = auth.hash_password("pw").unwrap();
    assert_eq!(h.len(), 60);
    assert!(h.starts_with("$2b$08$"));
    assert_eq!(auth.verify_password("something else", &h).unwrap(), false);
}

#[test]
fn awkward_identity_round_trips() {
    let jwt = JwtService::new("secret".to_string());
    let p = UserPayload::new(i32::MIN, "A \"q\" \\ b\nc".to_string(), "ñandú".to_string(), "".to_string());
    let token = jwt.issue_token_at(&p, 0).unwrap();
    let back = jwt.verify_token_at(&token, 604_800).unwrap();
    assert_eq!(back.id, i32::MIN);
    assert_eq!(back.name, "A \"q\" \\ b\nc");
    assert_eq!(back.phone, "ñandú");
    assert_eq!(back.role, "");
}

#[test]
fn token_round_trip_until_expiry() {
    let jwt = JwtService::new("secret".to_string());
    let t0: i64 = 1_700_000_000;
    let token = jwt.issue_token_at(&payload(), t0).unwrap();
    assert_ne!(token, "Ana");
    assert_eq!(token.split('.').count(), 3);
    for now in [t0, t0 + 1, t0 + TOKEN_LIFETIME_SECONDS] {
        let p = jwt.verify_token_at(&token, now).unwrap();
        assert_eq!(p.id, 7);
        assert_eq!(p.name, "Ana");
        assert_eq!(p.phone, "59157423");
        assert_eq!(p.role, "admin");
    }
    assert!(is_unauthorized(&jwt.verify_token_at(&token, t0 + TOKEN_LIFETIME_SECONDS + 1)));
}

#[test]
fn tampered_tokens_fail_with_the_same_error() {
    let jwt = JwtService::new("secret".to_string());
    let token = jwt.issue_token_at(&payload(), 1_700_000_000).unwrap();
    let mut tampered = token.clone();
    let last = tampered.pop().unwrap();
    tampered.push(if last == 'A' { 'B' } else { 'A' });
    assert!(is_unauthorized(&jwt.verify_token_at(&tampered, 1_700_000_000)));
    assert!(is_unauthorized(&jwt.verify_token_at("not.a.token", 1_700_000_000)));
    assert!(is_unauthorized(&jwt.verify_token_at("", 1_700_000_000)));
    let other = JwtService::new("other-secret".to_string());
    assert!(is_unauthorized(&other.verify_token_at(&token, 1_700_000_000)));
}

#[test]
fn expiry_overflow_is_a_server_error() {
    let jwt = JwtService::new("secret".to_string());
    assert!(matches!(jwt.issue_token_at(&payload(), i64::MAX - 10), Err(AppError::ServerError(_))));
}

#[test]
fn fresh_token_verifies_now() {
    let jwt = JwtService::new("secret".to_string());
    let token = jwt.generate_token_from_payload(&payload()).unwrap();
    let p = jwt.verify_token(&token).unwrap();
    assert_eq!(p.id, 7);
    assert_eq!(p.role, "admin");
}
