use vstd::prelude::*;
use crate::credentials::{bcrypt_check, role_for, AuthService};
use crate::error::AppError;
use crate::requests::{LoginUserRequest, RegisterUserRequest};
use crate::responses::UserResponse;
use crate::text::same_text;
use crate::token::{is_unauthorized, issued_claims, token_claims, verified_identity, JwtService};

verus! {

/// A stored account.
#[derive(Debug, Clone)]
pub struct User {
    pub id: i32,
    pub phone: String,
    pub name: String,
    /// The bcrypt hash of the account's password.
    pub password: String,
    pub role: String,
}

/// An account about to be stored.
#[derive(Debug, Clone)]
pub struct NewUser {
    pub phone: String,
    pub name: String,
    pub password: String,
    pub role: String,
}

/// The identity that a token carries.
#[derive(Debug, Clone)]
pub struct UserPayload {
    pub id: i32,
    pub name: String,
    pub phone: String,
    pub role: String,
}

/// The mathematical value of an identity.
pub struct PayloadView {
    pub id: int,
    pub name: Seq<char>,
    pub phone: Seq<char>,
    pub role: Seq<char>,
}

impl View for UserPayload {
    type V = PayloadView;

    open spec fn view(&self) -> PayloadView {
        PayloadView { id: self.id as int, name: self.name@, phone: self.phone@, role: self.role@ }
    }
}

impl UserPayload {
    pub fn new(id: i32, name: String, phone: String, role: String) -> (r: UserPayload)
        ensures
            r.id == id,
            r.name@ == name@,
            r.phone@ == phone@,
            r.role@ == role@,
    {
        UserPayload { id, name, phone, role }
    }
}

/// The mathematical value of a stored account.
pub struct UserView {
    pub id: int,
    pub phone: Seq<char>,
    pub name: Seq<char>,
    pub password: Seq<char>,
    pub role: Seq<char>,
}

impl View for User {
    type V = UserView;

    open spec fn view(&self) -> UserView {
        UserView { id: self.id as int, phone: self.phone@, name: self.name@, password: self.password@, role: self.role@ }
    }
}

pub open spec fn user_opt(u: Option<User>) -> Option<UserView> {
    match u {
        Some(x) => Some(x@),
        None => None,
    }
}

/// The identity that a token issued for this account carries.
pub open spec fn payload_of_account(u: UserView) -> PayloadView {
    PayloadView { id: u.id, name: u.name, phone: u.phone, role: u.role }
}

/// The first stored account with this phone.
pub open spec fn account_with_phone(accounts: Seq<UserView>, phone: Seq<char>) -> Option<UserView>
    decreases accounts.len(),
{
    if accounts.len() == 0 {
        None
    } else if accounts[0].phone == phone {
        Some(accounts[0])
    } else {
        account_with_phone(accounts.drop_first(), phone)
    }
}

/// The first stored account with this id.
pub open spec fn account_with_id(accounts: Seq<UserView>, id: int) -> Option<UserView>
    decreases accounts.len(),
{
    if accounts.len() == 0 {
        None
    } else if accounts[0].id == id {
        Some(accounts[0])
    } else {
        account_with_id(accounts.drop_first(), id)
    }
}

/// Whether the stored account with this phone is an administrator.
pub open spec fn stored_admin(accounts: Seq<UserView>, phone: Seq<char>) -> bool {
    match account_with_phone(accounts, phone) {
        Some(a) => a.role == "admin"@,
        None => false,
    }
}

/// Storage of accounts. Its contents are a sequence of accounts; lookups
/// answer with the first match, and a failure of the store itself is a
/// database error.
pub trait UserRepository {
    spec fn accounts(&self) -> Seq<UserView>;

    fn find_by_id(&self, id: i32) -> (r: Result<Option<User>, AppError>)
        ensures
            match r {
                Ok(found) => user_opt(found) == account_with_id(self.accounts(), id as int),
                Err(e) => e is DatabaseError,
            };

    fn find_by_phone(&self, phone: &str) -> (r: Result<Option<User>, AppError>)
        ensures
            match r {
                Ok(found) => user_opt(found) == account_with_phone(self.accounts(), phone@),
                Err(e) => e is DatabaseError,
            };

    fn create(&mut self, new_user: NewUser) -> (r: Result<User, AppError>)
        ensures
            match r {
                Ok(u) => {
                    &&& u.phone@ == new_user.phone@
                    &&& u.name@ == new_user.name@
                    &&& u.password@ == new_user.password@
                    &&& u.role@ == new_user.role@
                    &&& final(self).accounts() == old(self).accounts().push(u@)
                },
                Err(e) => e is DatabaseError && final(self).accounts() == old(self).accounts(),
            };
}

fn copy_user(u: &User) -> (r: User)
    ensures
        r@ == u@,
{
    User { id: u.id, phone: u.phone.clone(), name: u.name.clone(), password: u.password.clone(), role: u.role.clone() }
}

/// Accounts held in memory, with ids handed out in order from 1; a phone can
/// be stored once.
pub struct InMemoryUserRepository {
    users: Vec<User>,
    next_id: i32,
}

impl InMemoryUserRepository {
    pub fn new() -> (r: InMemoryUserRepository)
        ensures
            r.accounts() == Seq::<UserView>::empty(),
    {
        let r = InMemoryUserRepository { users: Vec::new(), next_id: 1 };
        assert(r.users@.map_values(|u: User| u@) =~= Seq::<UserView>::empty());
        r
    }
}

impl UserRepository for InMemoryUserRepository {
    closed spec fn accounts(&self) -> Seq<UserView> {
        self.users@.map_values(|u: User| u@)
    }

    fn find_by_id(&self, id: i32) -> (r: Result<Option<User>, AppError>) {
        let ghost all = self.users@.map_values(|u: User| u@);
        let mut i: usize = 0;
        assert(all.skip(0) =~= all);
        while i < self.users.len()
            invariant
                all == self.users@.map_values(|u: User| u@),
                i <= self.users@.len(),
                account_with_id(all, id as int) == account_with_id(all.skip(i as int), id as int),
            decreases self.users@.len() - i,
        {
            let ghost rest = all.skip(i as int);
            assert(rest[0] == self.users@[i as int]@);
            if self.users[i].id == id {
                return Ok(Some(copy_user(&self.users[i])));
            }
            assert(rest.drop_first() =~= all.skip(i + 1));
            i = i + 1;
        }
        Ok(None)
    }

    fn find_by_phone(&self, phone: &str) -> (r: Result<Option<User>, AppError>) {
        let ghost all = self.users@.map_values(|u: User| u@);
        let mut i: usize = 0;
        assert(all.skip(0) =~= all);
        while i < self.users.len()
            invariant
                all == self.users@.map_values(|u: User| u@),
                i <= self.users@.len(),
                account_with_phone(all, phone@) == account_with_phone(all.skip(i as int), phone@),
            decreases self.users@.len() - i,
        {
            let ghost rest = all.skip(i as int);
            assert(rest[0] == self.users@[i as int]@);
            if same_text(self.users[i].phone.as_str(), phone) {
                return Ok(Some(copy_user(&self.users[i])));
            }
            assert(rest.drop_first() =~= all.skip(i + 1));
            i = i + 1;
        }
        Ok(None)
    }

    fn create(&mut self, new_user: NewUser) -> (r: Result<User, AppError>) {
        match self.find_by_phone(new_user.phone.as_str()) {
            Ok(None) => {},
            _ => { return Err(AppError::DatabaseError(String::from_str("UNIQUE constraint failed: users.phone"))); },
        }
        let id = self.next_id;
        if id == i32::MAX {
            return Err(AppError::DatabaseError(String::from_str("no more account ids")));
        }
        self.next_id = id + 1;
        let user = User { id, phone: new_user.phone, name: new_user.name, password: new_user.password, role: new_user.role };
        let ghost before = self.users@;
        self.users.push(copy_user(&user));
        proof {
            assert(self.users@.map_values(|u: User| u@) =~= before.map_values(|u: User| u@).push(user@));
        }
        Ok(user)
    }
}

/// The account use cases: registration, login, lookups and the role checks
/// that authorization needs. Each decision is a function of what storage
/// answered, so that any store can stand behind it; the methods that take a
/// `UserRepository` run the lookups themselves.
#[derive(Clone)]
pub struct UserUseCases {
    auth_service: AuthService,
    jwt_service: JwtService,
}

/// Whether a stored account makes its identity an administrator.
pub open spec fn admin_account(found: Option<UserView>) -> bool {
    match found {
        Some(a) => a.role == "admin"@,
        None => false,
    }
}

impl UserUseCases {
    pub closed spec fn master(&self) -> Seq<char> {
        self.auth_service.master()
    }

    pub closed spec fn secret(&self) -> Seq<char> {
        self.jwt_service.secret()
    }

    pub fn new(jwt_secret: String, master_password: String) -> (r: UserUseCases)
        ensures
            r.secret() == jwt_secret@,
            r.master() == master_password@,
    {
        let auth_service = AuthService::new(master_password);
        let jwt_service = JwtService::new(jwt_secret);
        UserUseCases { auth_service, jwt_service }
    }

    /// The account to store for a registration, given the account already
    /// stored under its phone: a taken phone is a conflict; otherwise the role
    /// is the one the phone calls for and the password is stored as a bcrypt hash.
    pub fn prepare_registration(&self, request: RegisterUserRequest, existing: Option<User>) -> (r: Result<NewUser, AppError>)
        ensures
            existing is Some ==> r is Err && r->Err_0 is Conflict,
            existing is None ==> r is Ok || r->Err_0 is ServerError,
            match r {
                Ok(u) => {
                    &&& u.phone@ == request.phone@
                    &&& u.name@ == request.name@
                    &&& u.role@ == role_for(request.phone@)
                    &&& u.password@.len() == 60
                    &&& u.password@.take(7) == "$2b$08$"@
                    &&& bcrypt_check(request.password@, u.password@) == Some(true)
                },
                Err(_) => true,
            },
    {
        if existing.is_some() {
            return Err(AppError::Conflict(String::from_str("Ya existe una cuenta con este teléfono")));
        }
        let RegisterUserRequest { phone, name, password } = request;
        let role = self.auth_service.assign_role(phone.as_str());
        let hashed_password = match self.auth_service.hash_password(password.as_str()) {
            Ok(h) => h,
            Err(e) => { return Err(e); },
        };
        Ok(NewUser { phone, name, password: hashed_password, role })
    }

    /// The login of the account stored under the phone given: the master
    /// password or the account's own opens it, and a token is issued for it.
    pub fn complete_login(&self, found: Option<User>, password: &str) -> (r: Result<(User, String), AppError>)
        ensures
            found is None ==> r is Err && r->Err_0 is NotFound,
            match found {
                Some(a) => {
                    &&& password@ != self.master() && bcrypt_check(password@, a.password@) == Some(false) ==> r is Err
                        && is_wrong_password(r->Err_0)
                    &&& password@ != self.master() && bcrypt_check(password@, a.password@) is None ==> r is Err
                        && r->Err_0 is ServerError
                    &&& (password@ == self.master() || bcrypt_check(password@, a.password@) == Some(true)) ==> r is Ok
                        || r->Err_0 is ServerError
                },
                None => true,
            },
            match r {
                Ok((u, t)) => {
                    &&& user_opt(found) == Some(u@)
                    &&& (password@ == self.master() || bcrypt_check(password@, u.password@) == Some(true))
                    &&& exists|now: i64| token_claims(self.secret(), t@) == Some(
                        #[trigger] issued_claims(payload_of_account(u@), now as int),
                    )
                },
                Err(_) => true,
            },
    {
        let user = match found {
            None => { return Err(AppError::NotFound(String::from_str("Usuario no encontrado"))); },
            Some(u) => u,
        };
        let is_valid = match self.auth_service.verify_credentials(&user, password) {
            Ok(b) => b,
            Err(e) => { return Err(e); },
        };
        if !is_valid {
            return Err(wrong_password());
        }
        let user_payload = UserPayload::new(user.id, user.name.clone(), user.phone.clone(), user.role.clone());
        let token = match self.jwt_service.generate_token_from_payload(&user_payload) {
            Ok(t) => t,
            Err(e) => { return Err(e); },
        };
        proof {
            assert(user_payload@ == payload_of_account(user@));
            let now = choose|now: i64| token_claims(self.jwt_service.secret(), token@) == Some(
                #[trigger] issued_claims(user_payload@, now as int));
            assert(token_claims(self.secret(), token@) == Some(issued_claims(payload_of_account(user@), now as int)));
        }
        Ok((user, token))
    }

    /// Whether the role of an identity has to be checked against its stored
    /// account: only when its token does not already say administrator.
    pub fn needs_role_lookup(&self, payload: &UserPayload) -> (r: bool)
        ensures
            r == (payload.role@ != "admin"@),
    {
        !same_text(payload.role.as_str(), "admin")
    }

    /// Whether a stored account is an administrator.
    pub fn is_admin_account(&self, found: &Option<User>) -> (r: bool)
        ensures
            r == admin_account(user_opt(*found)),
    {
        match found {
            Some(u) => same_text(u.role.as_str(), "admin"),
            None => false,
        }
    }

    /// Lets an authenticated identity through only if it is an administrator,
    /// by its token or, since roles change after tokens are issued, by the
    /// account stored under its phone.
    pub fn admin_response(&self, payload: &UserPayload, stored: Option<User>) -> (r: Result<UserResponse, AppError>)
        ensures
            payload.role@ == "admin"@ || admin_account(user_opt(stored)) ==> r is Ok,
            !(payload.role@ == "admin"@ || admin_account(user_opt(stored))) ==> r is Err && is_forbidden_role(r->Err_0),
            match r {
                Ok(u) => u.id == payload.id && u.name@ == payload.name@ && u.phone@ == payload.phone@ && u.role@
                    == payload.role@,
                Err(_) => true,
            },
    {
        if self.needs_role_lookup(payload) && !self.is_admin_account(&stored) {
            return Err(AppError::AuthError(String::from_str("Sin permisos para acceder al sistema")));
        }
        Ok(UserResponse::from_payload(payload))
    }

    /// Registers an account in `repo`; a phone that is taken is a conflict.
    pub fn register_user<R: UserRepository>(&self, repo: &mut R, request: RegisterUserRequest) -> (r: Result<User, AppError>)
        ensures
            account_with_phone(old(repo).accounts(), request.phone@) is Some ==> r is Err && (r->Err_0 is Conflict
                || r->Err_0 is DatabaseError),
            account_with_phone(old(repo).accounts(), request.phone@) is None ==> r is Ok || r->Err_0 is ServerError
                || r->Err_0 is DatabaseError,
            match r {
                Ok(u) => {
                    &&& u.phone@ == request.phone@
                    &&& u.name@ == request.name@
                    &&& u.role@ == role_for(request.phone@)
                    &&& u.password@.len() == 60
                    &&& u.password@.take(7) == "$2b$08$"@
                    &&& bcrypt_check(request.password@, u.password@) == Some(true)
                    &&& final(repo).accounts() == old(repo).accounts().push(u@)
                },
                Err(_) => final(repo).accounts() == old(repo).accounts(),
            },
    {
        let existing = match repo.find_by_phone(request.phone.as_str()) {
            Ok(found) => found,
            Err(e) => { return Err(e); },
        };
        let new_user = match self.prepare_registration(request, existing) {
            Ok(u) => u,
            Err(e) => { return Err(e); },
        };
        repo.create(new_user)
    }

    /// Logs in against `repo` with a phone and a password (or the master
    /// password) and issues a token for the account.
    pub fn login_user<R: UserRepository>(&self, repo: &R, request: LoginUserRequest) -> (r: Result<(User, String), AppError>)
        ensures
            account_with_phone(repo.accounts(), request.phone@) is None ==> r is Err && (r->Err_0 is NotFound
                || r->Err_0 is DatabaseError),
            match account_with_phone(repo.accounts(), request.phone@) {
                Some(a) => {
                    &&& request.password@ != self.master() && bcrypt_check(request.password@, a.password) == Some(false)
                        ==> r is Err && (is_wrong_password(r->Err_0) || r->Err_0 is DatabaseError)
                    &&& request.password@ != self.master() && bcrypt_check(request.password@, a.password) is None ==> r
                        is Err && (r->Err_0 is ServerError || r->Err_0 is DatabaseError)
                    &&& (request.password@ == self.master() || bcrypt_check(request.password@, a.password) == Some(true))
                        ==> r is Ok || r->Err_0 is ServerError || r->Err_0 is DatabaseError
                },
                None => true,
            },
            match r {
                Ok((u, t)) => {
                    &&& account_with_phone(repo.accounts(), request.phone@) == Some(u@)
                    &&& (request.password@ == self.master() || bcrypt_check(request.password@, u.password@) == Some(true))
                    &&& exists|now: i64| token_claims(self.secret(), t@) == Some(
                        #[trigger] issued_claims(payload_of_account(u@), now as int),
                    )
                },
                Err(_) => true,
            },
    {
        let LoginUserRequest { phone, password } = request;
        let found = match repo.find_by_phone(phone.as_str()) {
            Ok(f) => f,
            Err(e) => { return Err(e); },
        };
        self.complete_login(found, password.as_str())
    }

    pub fn get_user_by_id<R: UserRepository>(&self, repo: &R, user_id: i32) -> (r: Result<Option<User>, AppError>)
        ensures
            match r {
                Ok(found) => user_opt(found) == account_with_id(repo.accounts(), user_id as int),
                Err(e) => e is DatabaseError,
            },
    {
        repo.find_by_id(user_id)
    }

    pub fn get_user_by_phone<R: UserRepository>(&self, repo: &R, user_phone: &str) -> (r: Result<Option<User>, AppError>)
        ensures
            match r {
                Ok(found) => user_opt(found) == account_with_phone(repo.accounts(), user_phone@),
                Err(e) => e is DatabaseError,
            },
    {
        repo.find_by_phone(user_phone)
    }

    /// Whether the account stored in `repo` with this phone is an administrator.
    pub fn is_admin<R: UserRepository>(&self, repo: &R, phone: &str) -> (r: Result<bool, AppError>)
        ensures
            match r {
                Ok(b) => b == stored_admin(repo.accounts(), phone@),
                Err(e) => e is DatabaseError,
            },
    {
        match repo.find_by_phone(phone) {
            Ok(found) => Ok(self.is_admin_account(&found)),
            Err(e) => Err(e),
        }
    }

    /// Lets an authenticated identity through only if it is an administrator,
    /// by its token or by its account in `repo`.
    pub fn authorize_admin<R: UserRepository>(&self, repo: &R, payload: &UserPayload) -> (r: Result<UserResponse, AppError>)
        ensures
            payload.role@ == "admin"@ ==> r is Ok,
            payload.role@ != "admin"@ && stored_admin(repo.accounts(), payload.phone@) ==> r is Ok
                || r->Err_0 is DatabaseError,
            payload.role@ != "admin"@ && !stored_admin(repo.accounts(), payload.phone@) ==> r is Err && (
            is_forbidden_role(r->Err_0) || r->Err_0 is DatabaseError),
            match r {
                Ok(u) => u.id == payload.id && u.name@ == payload.name@ && u.phone@ == payload.phone@ && u.role@
                    == payload.role@,
                Err(_) => true,
            },
    {
        let stored = if self.needs_role_lookup(payload) {
            match repo.find_by_phone(payload.phone.as_str()) {
                Ok(found) => found,
                Err(e) => { return Err(e); },
            }
        } else {
            None
        };
        self.admin_response(payload, stored)
    }

    /// The token service of these use cases.
    pub fn jwt_service(&self) -> (r: &JwtService)
        ensures
            r.secret() == self.secret(),
    {
        &self.jwt_service
    }

    /// The identity that `token` proves now.
    pub fn verify_token(&self, token: &str) -> (r: Result<UserPayload, AppError>)
        ensures
            match r {
                Ok(p) => exists|now: i64| #[trigger] verified_identity(self.secret(), token@, now as int) == Some(p@),
                Err(e) => is_unauthorized(e),
            },
    {
        let r = self.jwt_service.verify_token(token);
        proof {
            if r is Ok {
                let now = choose|now: i64| #[trigger] verified_identity(self.jwt_service.secret(), token@, now as int) == Some(r->Ok_0@);
                assert(verified_identity(self.secret(), token@, now as int) == Some(r->Ok_0@));
            }
        }
        r
    }
}

/// Once an account is stored under a phone, that phone is taken: the next
/// registration with it finds the account and is refused as a conflict.
pub proof fn lemma_registered_phone_is_taken(accounts: Seq<UserView>, u: UserView)
    ensures
        account_with_phone(accounts.push(u), u.phone) is Some,
    decreases accounts.len(),
{
    let s = accounts.push(u);
    if accounts.len() > 0 && accounts[0].phone != u.phone {
        assert(s.drop_first() =~= accounts.drop_first().push(u));
        lemma_registered_phone_is_taken(accounts.drop_first(), u);
    }
}

/// The error of a login with a wrong password.
pub open spec fn is_wrong_password(e: AppError) -> bool {
    e is AuthError && e->AuthError_0@ == "Contraseña incorrecta"@
}

fn wrong_password() -> (e: AppError)
    ensures
        is_wrong_password(e),
{
    AppError::AuthError(String::from_str("Contraseña incorrecta"))
}

/// The error of an identity without administrator rights.
pub open spec fn is_forbidden_role(e: AppError) -> bool {
    e is AuthError && e->AuthError_0@ == "Sin permisos para acceder al sistema"@
}

} // verus!
