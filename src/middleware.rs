use vstd::prelude::*;
use crate::client_id::bearer_prefix;
use crate::error::AppError;
use crate::text::{has_prefix, starts_with_text, text_from};
use crate::token::{is_unauthorized, verified_identity, JwtService};
use crate::users::UserPayload;

verus! {

/// Paths that need no token: login and registration.
pub open spec fn is_public_path(path: Seq<char>) -> bool {
    has_prefix(path, "/auth/login"@) || has_prefix(path, "/auth/register"@)
}

pub open spec fn is_token_required(e: AppError) -> bool {
    e is AuthError && e->AuthError_0@ == "Token de autenticación requerido"@
}

pub open spec fn is_bad_token_format(e: AppError) -> bool {
    e is AuthError && e->AuthError_0@ == "Formato de token inválido"@
}

/// What authorization decided for a request that may go on.
#[derive(Debug, Clone)]
pub enum AuthDecision {
    /// A public path: no identity is attached.
    Public,
    /// The identity that the request's token proves.
    Authenticated(UserPayload),
}

/// Whether requests to `path` skip the token check.
pub fn is_public(path: &str) -> (r: bool)
    ensures
        r == is_public_path(path@),
{
    starts_with_text(path, "/auth/login") || starts_with_text(path, "/auth/register")
}

/// The token of an authorization header written `Bearer <token>`.
pub fn bearer_token(authorization: Option<&str>) -> (r: Result<String, AppError>)
    ensures
        match authorization {
            None => r is Err && is_token_required(r->Err_0),
            Some(h) => if has_prefix(h@, bearer_prefix()) {
                r is Ok && r->Ok_0@ == h@.skip(bearer_prefix().len() as int)
            } else {
                r is Err && is_bad_token_format(r->Err_0)
            },
        },
{
    match authorization {
        None => Err(AppError::AuthError(String::from_str("Token de autenticación requerido"))),
        Some(h) => {
            proof { reveal_strlit("Bearer "); }
            if starts_with_text(h, "Bearer ") {
                Ok(text_from(h, 7))
            } else {
                Err(AppError::AuthError(String::from_str("Formato de token inválido")))
            }
        },
    }
}

/// The authorization of every request at time `now`: public paths pass; any other
/// needs a bearer token that proves an identity, which the request then carries.
pub fn authorize_request_at(jwt: &JwtService, path: &str, authorization: Option<&str>, now: i64) -> (r: Result<
    AuthDecision,
    AppError,
>)
    ensures
        is_public_path(path@) ==> r is Ok && r->Ok_0 is Public,
        !is_public_path(path@) ==> match authorization {
            None => r is Err && is_token_required(r->Err_0),
            Some(h) => if !has_prefix(h@, bearer_prefix()) {
                r is Err && is_bad_token_format(r->Err_0)
            } else {
                match verified_identity(jwt.secret(), h@.skip(bearer_prefix().len() as int), now as int) {
                    Some(p) => r is Ok && r->Ok_0 is Authenticated && r->Ok_0->Authenticated_0@ == p,
                    None => r is Err && is_unauthorized(r->Err_0),
                }
            },
        },
{
    if is_public(path) {
        return Ok(AuthDecision::Public);
    }
    let token = match bearer_token(authorization) {
        Ok(t) => t,
        Err(e) => { return Err(e); },
    };
    match jwt.verify_token_at(token.as_str(), now) {
        Ok(p) => Ok(AuthDecision::Authenticated(p)),
        Err(e) => Err(e),
    }
}

/// The authorization of every request, at the current time.
pub fn authorize_request(jwt: &JwtService, path: &str, authorization: Option<&str>) -> (r: Result<
    AuthDecision,
    AppError,
>)
    ensures
        is_public_path(path@) ==> r is Ok && r->Ok_0 is Public,
        !is_public_path(path@) ==> match authorization {
            None => r is Err && is_token_required(r->Err_0),
            Some(h) => if !has_prefix(h@, bearer_prefix()) {
                r is Err && is_bad_token_format(r->Err_0)
            } else {
                match r {
                    Ok(d) => d is Authenticated && exists|now: i64|
                        #[trigger] verified_identity(jwt.secret(), h@.skip(bearer_prefix().len() as int), now as int)
                            == Some(d->Authenticated_0@),
                    Err(e) => is_unauthorized(e),
                }
            },
        },
{
    if is_public(path) {
        return Ok(AuthDecision::Public);
    }
    let token = match bearer_token(authorization) {
        Ok(t) => t,
        Err(e) => { return Err(e); },
    };
    match jwt.verify_token(token.as_str()) {
        Ok(p) => Ok(AuthDecision::Authenticated(p)),
        Err(e) => Err(e),
    }
}

} // verus!
