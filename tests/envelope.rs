use prestagest::config::{parse_origins, parse_port, Config, ConfigSource};
use prestagest::dtos::{CreateBorrowerRequestDto, LoginRequestDto, RegisterRequestDto, UpdateBorrowerRequestDto};
use prestagest::error::AppError;
use prestagest::requests::{
    borrower_not_found, prepare_borrower, prepare_borrower_update, CreateBorrowerRequest, NewBorrower,
    UpdateBorrowerRequest,
};
use prestagest::responses::{ApiResponse, AuthResponse};

fn source() -> ConfigSource {
    ConfigSource {
        app_env: None,
        app_name: None,
        server_host: None,
        database_url: None,
        server_port: None,
        jwt_secret: None,
        master_password: None,
        cors_origins: None,
    }
}

#[test]
fn errors_map_to_status_and_kind() {
    let cases = vec![
        (AppError::DatabaseError("x".into()), 500, "database_error"),
        (AppError::ConfigError("x".into()), 500, "config_error"),
        (AppError::ServerError("x".into()), 500, "server_error"),
        (AppError::IoError("x".into()), 500, "io_error"),
        (AppError::ValidationError(vec!["x".into()]), 400, "validation_error"),
        (AppError::AuthError("x".into()), 401, "auth_error"),
        (AppError::NotFound("x".into()), 404, "not_found"),
        (AppError::Conflict("x".into()), 409, "conflict"),
        (AppError::Forbidden("x".into()), 403, "forbidden"),
        (AppError::TooManyRequests("x".into()), 429, "too_many_requests"),
    ];
    for (e, status, kind) in cases {
        assert_eq!(e.status_code(), status);
        assert_eq!(e.error_kind(), kind);
    }
}

#[test]
fn registration_validation_collects_every_failure() {
    let dto = RegisterRequestDto { name: "".into(), phone: "123".into(), password: "short".into() };
    match dto.validate() {
        Err(AppError::ValidationError(m)) => assert_eq!(
            m,
            vec![
                "El nombre no puede estar vacío".to_string(),
                "El teléfono debe tener mínimo 8 dígitos".to_string(),
                "La contraseña debe tener mínimo 8 caracteres".to_string(),
            ]
        ),
        _ => panic!("expected a validation error"),
    }
    let ok = RegisterRequestDto { name: "A".into(), phone: "12345678".into(), password: "ñññññññá".into() };
    assert!(ok.validate().is_ok());
    assert_eq!(ok.into_request().phone, "12345678");
}

#[test]
fn login_and_borrower_validation() {
    assert!(LoginRequestDto { phone: "".into(), password: "x".into() }.validate().is_err());
    assert!(LoginRequestDto { phone: "1".into(), password: "x".into() }.validate().is_ok());
    let c = CreateBorrowerRequestDto { phone: "1234567".into(), name: "n".into(), location: "".into() };
    match c.validate() {
        Err(AppError::ValidationError(m)) => assert_eq!(m.len(), 2),
        _ => panic!("expected a validation error"),
    }
    let u = UpdateBorrowerRequestDto { phone: None, name: Some("".into()), location: None };
    match u.validate() {
        Err(AppError::ValidationError(m)) => assert_eq!(m, vec!["El nombre no puede estar vacío".to_string()]),
        _ => panic!("expected a validation error"),
    }
    assert!(UpdateBorrowerRequestDto { phone: None, name: None, location: None }.validate().is_ok());
}

#[test]
fn responses_carry_their_fields() {
    let c = ApiResponse::created("hecho".into());
    assert_eq!((c.status_code, c.error.as_str()), (201, "created"));
    let o = ApiResponse::ok("bien".into());
    assert_eq!((o.status_code, o.message.as_str()), (200, "bien"));
    assert_eq!(AuthResponse::from_user_and_token("t".into()).access_token, "t");
    let b = NewBorrower::new("70000000".into(), "B".into(), "La Paz".into());
    assert_eq!(b.location, "La Paz");
}

#[test]
fn config_defaults() {
    let c = Config::from_source(source());
    assert_eq!(c.server_address(), "127.0.0.1:3000");
    assert_eq!(c.app.env, "development");
    assert_eq!(c.app.name, "prestagest");
    assert_eq!(c.app.master_password, "KeyMaster123");
    assert_eq!(c.server.jwt_secret, "12345678");
    assert_eq!(c.database.url, "file:data/prestagest.db");
    assert_eq!(c.server.cors_origins, vec!["http://localhost:1420".to_string(), "http://localhost:8000".to_string()]);
}

#[test]
fn config_reads_given_settings() {
    let mut s = source();
    s.server_host = Some("0.0.0.0".into());
    s.server_port = Some("+8080".into());
    s.cors_origins = Some(" https://a.example , undefined,, https://b.example".into());
    let c = Config::from_source(s);
    assert_eq!(c.server_address(), "0.0.0.0:8080");
    assert_eq!(c.server.cors_origins, vec!["https://a.example".to_string(), "https://b.example".to_string()]);
    let mut bad = source();
    bad.server_port = Some("70000".into());
    assert_eq!(Config::from_source(bad).server.port, 3000);
}

#[test]
fn ports_parse_like_std() {
    assert_eq!(parse_port("65535"), Some(65535));
    assert_eq!(parse_port("065"), Some(65));
    assert_eq!(parse_port("65536"), None);
    assert_eq!(parse_port("+"), None);
    assert_eq!(parse_port(""), None);
    assert_eq!(parse_port(" 80"), None);
    assert_eq!(parse_origins(""), Vec::<String>::new());
}

#[test]
fn update_keeps_missing_fields() {
    let current = NewBorrower::new("70000000".into(), "B".into(), "La Paz".into());
    let change = UpdateBorrowerRequest { phone: None, name: Some("C".into()), location: None };
    let next = change.apply_to(&current);
    assert_eq!(next.phone, "70000000");
    assert_eq!(next.name, "C");
    assert_eq!(next.location, "La Paz");
}

#[test]
fn errors_describe_themselves() {
    assert_eq!(AppError::NotFound("Usuario no encontrado".into()).describe(), "Not found: Usuario no encontrado");
    assert_eq!(AppError::ConfigError("x".into()).describe(), "Configuration error: x");
    assert_eq!(
        AppError::ValidationError(vec!["a".into(), "b".into(), "c".into()]).describe(),
        "Validation errors: a, b, c"
    );
    assert_eq!(AppError::ValidationError(vec![]).describe(), "Validation errors: ");
}

#[test]
fn borrower_rules() {
    let req = CreateBorrowerRequest { phone: "70000000".into(), name: "B".into(), location: "Sucre".into() };
    assert!(matches!(prepare_borrower(req.clone(), true), Err(AppError::Conflict(_))));
    assert_eq!(prepare_borrower(req, false).unwrap().location, "Sucre");
    let current = NewBorrower::new("70000000".into(), "B".into(), "La Paz".into());
    let change = UpdateBorrowerRequest { phone: Some("71111111".into()), name: None, location: None };
    assert!(matches!(prepare_borrower_update(&current, change.clone(), true), Err(AppError::Conflict(_))));
    assert_eq!(prepare_borrower_update(&current, change, false).unwrap().phone, "71111111");
    let no_phone = UpdateBorrowerRequest { phone: None, name: Some("Z".into()), location: None };
    assert_eq!(prepare_borrower_update(&current, no_phone, true).unwrap().name, "Z");
    assert!(matches!(borrower_not_found(-12), AppError::NotFound(m) if m == "Prestatario con ID -12 no encontrado"));
}
