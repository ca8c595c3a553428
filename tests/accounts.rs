use prestagest::error::AppError;
use prestagest::middleware::{authorize_request, authorize_request_at, bearer_token, is_public, AuthDecision};
use prestagest::requests::{LoginUserRequest, RegisterUserRequest};
use prestagest::token::JwtService;
use prestagest::users::{InMemoryUserRepository, UserPayload, UserRepository, UserUseCases};

fn use_cases() -> (UserUseCases, InMemoryUserRepository) {
    (UserUseCases::new("jwt-secret".to_string(), "KeyMaster123".to_string()), InMemoryUserRepository::new())
}

fn register(
    (uc, repo): &mut (UserUseCases, InMemoryUserRepository),
    phone: &str,
) -> Result<prestagest::users::User, AppError> {
    uc.register_user(repo, RegisterUserRequest {
        name: "Ana".to_string(),
        phone: phone.to_string(),
        password: "password123".to_string(),
    })
}

#[test]
fn admin_listed_phone_registers_as_admin() {
    let mut ctx = use_cases();
    let u = register(&mut ctx, "59157423").unwrap();
    assert_eq!(u.role, "admin");
    let v = register(&mut ctx, "55555555").unwrap();
    assert_eq!(v.role, "user");
    assert_ne!(v.password, "password123");
    assert_ne!(u.id, v.id);
}

#[test]
fn duplicate_phone_is_a_conflict() {
    let mut ctx = use_cases();
    register(&mut ctx, "55555555").unwrap();
    assert!(matches!(register(&mut ctx, "55555555"), Err(AppError::Conflict(_))));
    let (uc, repo) = &ctx;
    assert!(uc.get_user_by_phone(repo, "55555555").unwrap().is_some());
    assert!(uc.get_user_by_id(repo, 2).unwrap().is_none());
}

#[test]
fn login_issues_a_token_for_the_account() {
    let mut ctx = use_cases();
    let u = register(&mut ctx, "55555555").unwrap();
    let (uc, repo) = &ctx;
    let (found, token) = uc
        .login_user(repo, LoginUserRequest { phone: "55555555".to_string(), password: "password123".to_string() })
        .unwrap();
    assert_eq!(found.id, u.id);
    let p = uc.verify_token(&token).unwrap();
    assert_eq!(p.id, u.id);
    assert_eq!(p.phone, "55555555");
    assert_eq!(p.role, "user");
}

#[test]
fn login_failures() {
    let mut ctx = use_cases();
    register(&mut ctx, "55555555").unwrap();
    let (uc, repo) = &ctx;
    let wrong = uc.login_user(repo, LoginUserRequest { phone: "55555555".to_string(), password: "nope-nope".to_string() });
    assert!(matches!(wrong, Err(AppError::AuthError(m)) if m == "Contraseña incorrecta"));
    let missing = uc.login_user(repo, LoginUserRequest { phone: "12345678".to_string(), password: "password123".to_string() });
    assert!(matches!(missing, Err(AppError::NotFound(_))));
    let master = uc.login_user(repo, LoginUserRequest { phone: "55555555".to_string(), password: "KeyMaster123".to_string() });
    assert!(master.is_ok());
}

#[test]
fn admin_check_rereads_stored_role() {
    let mut ctx = use_cases();
    register(&mut ctx, "59157423").unwrap();
    register(&mut ctx, "55555555").unwrap();
    let (uc, repo) = &ctx;
    assert_eq!(uc.is_admin(repo, "59157423").unwrap(), true);
    assert_eq!(uc.is_admin(repo, "55555555").unwrap(), false);
    assert_eq!(uc.is_admin(repo, "00000000").unwrap(), false);
    let stale = UserPayload::new(1, "Ana".to_string(), "59157423".to_string(), "user".to_string());
    assert_eq!(uc.authorize_admin(repo, &stale).unwrap().role, "user");
    let plain = UserPayload::new(2, "Ana".to_string(), "55555555".to_string(), "user".to_string());
    assert!(matches!(uc.authorize_admin(repo, &plain), Err(AppError::AuthError(m)) if m == "Sin permisos para acceder al sistema"));
    let claimed = UserPayload::new(3, "X".to_string(), "99999999".to_string(), "admin".to_string());
    assert_eq!(uc.authorize_admin(repo, &claimed).unwrap().id, 3);
}

#[test]
fn admin_decision_on_lookup_result() {
    let (uc, _) = use_cases();
    let stale = UserPayload::new(1, "Ana".to_string(), "59157423".to_string(), "user".to_string());
    assert!(uc.needs_role_lookup(&stale));
    assert!(uc.admin_response(&stale, None).is_err());
    let stored = prestagest::users::User {
        id: 1,
        phone: "59157423".to_string(),
        name: "Ana".to_string(),
        password: "h".to_string(),
        role: "admin".to_string(),
    };
    assert!(uc.is_admin_account(&Some(stored.clone())));
    assert_eq!(uc.admin_response(&stale, Some(stored)).unwrap().phone, "59157423");
}

#[test]
fn registration_decision_on_lookup_result() {
    let (uc, _) = use_cases();
    let req = RegisterUserRequest { name: "A".into(), phone: "59157423".into(), password: "password123".into() };
    let nu = uc.prepare_registration(req.clone(), None).unwrap();
    assert_eq!(nu.role, "admin");
    assert!(nu.password.starts_with("$2b$08$"));
    let taken = prestagest::users::User {
        id: 4,
        phone: "59157423".to_string(),
        name: "B".to_string(),
        password: "h".to_string(),
        role: "admin".to_string(),
    };
    assert!(matches!(uc.prepare_registration(req, Some(taken.clone())), Err(AppError::Conflict(_))));
    assert!(matches!(uc.complete_login(None, "x"), Err(AppError::NotFound(_))));
    let (u, _) = uc.complete_login(Some(taken), "KeyMaster123").unwrap();
    assert_eq!(u.id, 4);
}

#[test]
fn login_with_stored_account_decisions() {
    let (uc, _) = use_cases();
    let auth = prestagest::credentials::AuthService::new("m".to_string());
    let account = prestagest::users::User {
        id: 5,
        phone: "60000000".to_string(),
        name: "C".to_string(),
        password: auth.hash_password("right-one").unwrap(),
        role: "user".to_string(),
    };
    assert!(matches!(uc.complete_login(Some(account.clone()), "wrong-one"),
        Err(AppError::AuthError(m)) if m == "Contraseña incorrecta"));
    let (u, token) = uc.complete_login(Some(account.clone()), "right-one").unwrap();
    assert_eq!(u.id, 5);
    assert_eq!(uc.verify_token(&token).unwrap().phone, "60000000");
    let mut broken = account;
    broken.password = "not-a-hash".to_string();
    assert!(matches!(uc.complete_login(Some(broken), "right-one"), Err(AppError::ServerError(_))));
}

#[test]
fn in_memory_repository_refuses_second_phone() {
    let mut repo = InMemoryUserRepository::new();
    let nu = prestagest::users::NewUser {
        phone: "1".to_string(),
        name: "a".to_string(),
        password: "h".to_string(),
        role: "user".to_string(),
    };
    assert_eq!(repo.create(nu.clone()).unwrap().id, 1);
    assert!(matches!(repo.create(nu), Err(AppError::DatabaseError(_))));
    assert_eq!(repo.find_by_id(1).unwrap().unwrap().phone, "1");
}

#[test]
fn authorization_lets_public_paths_through() {
    assert!(is_public("/auth/login"));
    assert!(is_public("/auth/register/x"));
    assert!(!is_public("/users/1"));
    let jwt = JwtService::new("s".to_string());
    assert!(matches!(authorize_request(&jwt, "/auth/login", None), Ok(AuthDecision::Public)));
}

#[test]
fn authorization_demands_bearer_token() {
    let jwt = JwtService::new("s".to_string());
    assert!(matches!(authorize_request(&jwt, "/users/1", None),
        Err(AppError::AuthError(m)) if m == "Token de autenticación requerido"));
    assert!(matches!(authorize_request(&jwt, "/users/1", Some("Token abc")),
        Err(AppError::AuthError(m)) if m == "Formato de token inválido"));
    assert!(matches!(authorize_request(&jwt, "/users/1", Some("Bearer abc")),
        Err(AppError::AuthError(m)) if m == "Usuario no autorizado o token de acceso expirado-inválido"));
    assert_eq!(bearer_token(Some("Bearer xyz")).unwrap(), "xyz");
}

#[test]
fn authorization_attaches_identity_of_valid_token() {
    let jwt = JwtService::new("s".to_string());
    let p = UserPayload::new(9, "N".to_string(), "77777777".to_string(), "user".to_string());
    let token = jwt.issue_token_at(&p, 1_000).unwrap();
    let header = format!("Bearer {}", token);
    match authorize_request_at(&jwt, "/borrowers", Some(&header), 2_000) {
        Ok(AuthDecision::Authenticated(id)) => assert_eq!(id.id, 9),
        _ => panic!("expected an identity"),
    }
    assert!(authorize_request_at(&jwt, "/borrowers", Some(&header), 1_000 + 604_801).is_err());
}
