use vstd::prelude::*;
use crate::users::{User, UserPayload};

verus! {

/// A plain status envelope.
#[derive(Debug, Clone)]
pub struct ApiResponse {
    pub status_code: u16,
    pub message: String,
    pub error: String,
}

impl ApiResponse {
    pub fn created(message: String) -> (r: ApiResponse)
        ensures
            r.status_code == 201,
            r.message@ == message@,
            r.error@ == "created"@,
    {
        ApiResponse { status_code: 201, message, error: String::from_str("created") }
    }

    pub fn ok(message: String) -> (r: ApiResponse)
        ensures
            r.status_code == 200,
            r.message@ == message@,
            r.error@ == "ok"@,
    {
        ApiResponse { status_code: 200, message, error: String::from_str("ok") }
    }
}

/// The body of a successful login.
#[derive(Debug, Clone)]
pub struct AuthResponse {
    pub access_token: String,
}

impl AuthResponse {
    pub fn from_user_and_token(token: String) -> (r: AuthResponse)
        ensures
            r.access_token@ == token@,
    {
        AuthResponse { access_token: token }
    }
}

/// The public projection of an account.
#[derive(Debug, Clone)]
pub struct UserResponse {
    pub id: i32,
    pub name: String,
    pub phone: String,
    pub role: String,
}

impl UserResponse {
    pub fn from_user(user: User) -> (r: UserResponse)
        ensures
            r.id == user.id,
            r.name@ == user.name@,
            r.phone@ == user.phone@,
            r.role@ == user.role@,
    {
        UserResponse { id: user.id, name: user.name, phone: user.phone, role: user.role }
    }

    pub fn from_payload(payload: &UserPayload) -> (r: UserResponse)
        ensures
            r.id == payload.id,
            r.name@ == payload.name@,
            r.phone@ == payload.phone@,
            r.role@ == payload.role@,
    {
        UserResponse {
            id: payload.id,
            name: payload.name.clone(),
            phone: payload.phone.clone(),
            role: payload.role.clone(),
        }
    }
}

} // verus!
