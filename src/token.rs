use vstd::prelude::*;
use crate::claims::{claims_from_json, claims_in_json, claims_of, payload_of, Claims, ClaimsView};
use crate::error::AppError;
use crate::users::{PayloadView, UserPayload};

verus! {

/// How long an issued token stays valid, in seconds: seven days.
pub const TOKEN_LIFETIME_SECONDS: i64 = 604800;

/// The claims of a token issued for an identity at time `now`.
pub open spec fn issued_claims(p: PayloadView, now: int) -> ClaimsView {
    claims_of(p, now + TOKEN_LIFETIME_SECONDS)
}

#[verifier::external_type_specification]
#[verifier::external_body]
pub struct ExJwtError(jsonwebtoken::errors::Error);

/// The compact HS256 token, signed with `secret`, whose payload is the JSON
/// object of these claims as serde_json writes it.
pub uninterp spec fn hs256_claims_token(secret: Seq<char>, claims: ClaimsView) -> Seq<char>;

/// The payload text of a token whose structure and HS256 signature under
/// `secret` check out; `None` for any other token.
pub uninterp spec fn hs256_payload(secret: Seq<char>, token: Seq<char>) -> Option<Seq<char>>;

/// Relies on `jsonwebtoken::encode` with the default header (HS256) and an
/// HMAC key made of the secret's bytes, over the claims as a `serde_json::Map`
/// of five fields. Signing is deterministic and cannot fail here: the key
/// matches the algorithm and a map of numbers and strings always serialises.
/// `jsonwebtoken::decode` with the same secret (as `open_hs256` calls it)
/// hands back that JSON text, from which serde_json reads the same fields.
#[verifier::external_body]
fn sign_hs256(secret: &str, c: &Claims) -> (r: Result<String, jsonwebtoken::errors::Error>)
    ensures
        r is Ok,
        r is Ok ==> r->Ok_0@ == hs256_claims_token(secret@, c@),
        r is Ok ==> match hs256_payload(secret@, r->Ok_0@) {
            Some(p) => claims_in_json(p) == Some(c@),
            None => false,
        },
{
    let mut m = serde_json::Map::new();
    m.insert("sub".to_string(), c.sub.into());
    m.insert("name".to_string(), c.name.clone().into());
    m.insert("phone".to_string(), c.phone.clone().into());
    m.insert("role".to_string(), c.role.clone().into());
    m.insert("exp".to_string(), c.exp.into());
    let key = jsonwebtoken::EncodingKey::from_secret(secret.as_bytes());
    jsonwebtoken::encode(&jsonwebtoken::Header::default(), &m, &key)
}

/// Relies on `jsonwebtoken::decode` with an HMAC key made of the secret's
/// bytes, HS256 only, and its expiry and required-claim checks switched off
/// (expiry is checked by the caller): it checks the token's structure and
/// signature and hands back the payload's JSON text (`RawValue`). With those
/// checks off it depends on its two arguments alone.
#[verifier::external_body]
fn open_hs256(secret: &str, token: &str) -> (r: Result<String, jsonwebtoken::errors::Error>)
    ensures
        match r {
            Ok(p) => hs256_payload(secret@, token@) == Some(p@),
            Err(_) => hs256_payload(secret@, token@) is None,
        },
{
    let mut validation = jsonwebtoken::Validation::new(jsonwebtoken::Algorithm::HS256);
    validation.validate_exp = false;
    validation.required_spec_claims.clear();
    let key = jsonwebtoken::DecodingKey::from_secret(secret.as_bytes());
    let data = jsonwebtoken::decode::<Box<serde_json::value::RawValue>>(token, &key, &validation)?;
    Ok(data.claims.get().to_string())
}

/// Relies on `chrono::Utc::now` and `DateTime::timestamp`: the current time in
/// whole seconds since the Unix epoch.
#[verifier::external_body]
fn current_timestamp() -> (r: i64) {
    chrono::Utc::now().timestamp()
}

/// The claims that a token signed with `secret` carries, if it is genuine and
/// its payload holds them all.
pub open spec fn token_claims(secret: Seq<char>, token: Seq<char>) -> Option<ClaimsView> {
    match hs256_payload(secret, token) {
        Some(p) => claims_in_json(p),
        None => None,
    }
}

/// Whether a token issued at `now` would expire beyond the last representable second.
pub open spec fn expiry_overflows(now: int) -> bool {
    now + TOKEN_LIFETIME_SECONDS > i64::MAX
}

/// The identity that a token proves at time `now`: its claims, while they
/// have not expired.
pub open spec fn verified_identity(secret: Seq<char>, token: Seq<char>, now: int) -> Option<PayloadView> {
    match token_claims(secret, token) {
        Some(c) => if now <= c.exp { Some(payload_of(c)) } else { None },
        None => None,
    }
}

/// The one message of every failed token check.
pub open spec fn unauthorized_message() -> Seq<char> {
    "Usuario no autorizado o token de acceso expirado-inválido"@
}

pub open spec fn is_unauthorized(e: AppError) -> bool {
    e is AuthError && e->AuthError_0@ == unauthorized_message()
}

fn unauthorized() -> (e: AppError)
    ensures
        is_unauthorized(e),
{
    AppError::AuthError(String::from_str("Usuario no autorizado o token de acceso expirado-inválido"))
}

/// Issues and checks signed identity tokens under one shared secret.
#[derive(Clone)]
pub struct JwtService {
    secret: String,
}

impl JwtService {
    pub closed spec fn secret(&self) -> Seq<char> {
        self.secret@
    }

    pub fn new(secret: String) -> (r: JwtService)
        ensures
            r.secret() == secret@,
    {
        JwtService { secret }
    }

    /// Issues a token for `payload` at time `now` (seconds since the epoch); it
    /// expires seven days later.
    pub fn issue_token_at(&self, payload: &UserPayload, now: i64) -> (r: Result<String, AppError>)
        ensures
            now + TOKEN_LIFETIME_SECONDS > i64::MAX ==> r is Err,
            now + TOKEN_LIFETIME_SECONDS <= i64::MAX ==> r is Ok,
            match r {
                Ok(t) => {
                    let c = claims_of(payload@, now + TOKEN_LIFETIME_SECONDS);
                    &&& t@ == hs256_claims_token(self.secret(), c)
                    &&& token_claims(self.secret(), t@) == Some(c)
                },
                Err(e) => e is ServerError,
            },
    {
        let exp = match now.checked_add(TOKEN_LIFETIME_SECONDS) {
            Some(e) => e,
            None => { return Err(AppError::ServerError(String::from_str("Error generando token"))); },
        };
        let claims = Claims::for_payload(payload, exp);
        match sign_hs256(self.secret.as_str(), &claims) {
            Ok(t) => Ok(t),
            Err(_) => Err(AppError::ServerError(String::from_str("Error generando token"))),
        }
    }

    /// Issues a token for `payload` that expires seven days from now.
    pub fn generate_token_from_payload(&self, payload: &UserPayload) -> (r: Result<String, AppError>)
        ensures
            match r {
                Ok(t) => exists|now: i64| token_claims(self.secret(), t@) == Some(#[trigger] issued_claims(payload@, now as int)),
                Err(e) => e is ServerError && exists|now: i64| #[trigger] expiry_overflows(now as int),
            },
    {
        let now = current_timestamp();
        let r = self.issue_token_at(payload, now);
        proof {
            if r is Ok {
                assert(token_claims(self.secret(), r->Ok_0@) == Some(issued_claims(payload@, now as int)));
            } else {
                assert(expiry_overflows(now as int));
            }
        }
        r
    }

    /// The identity that `token` proves at time `now`; every failure, whether
    /// the token is malformed, tampered with or expired, is the same
    /// unauthorized error.
    pub fn verify_token_at(&self, token: &str, now: i64) -> (r: Result<UserPayload, AppError>)
        ensures
            match verified_identity(self.secret(), token@, now as int) {
                Some(p) => r is Ok && r->Ok_0@ == p,
                None => r is Err && is_unauthorized(r->Err_0),
            },
    {
        let text = match open_hs256(self.secret.as_str(), token) {
            Ok(t) => t,
            Err(_) => { return Err(unauthorized()); },
        };
        let claims = match claims_from_json(text.as_str()) {
            Some(c) => c,
            None => { return Err(unauthorized()); },
        };
        if now > claims.exp {
            return Err(unauthorized());
        }
        Ok(claims.into_payload())
    }

    /// The identity that `token` proves now.
    pub fn verify_token(&self, token: &str) -> (r: Result<UserPayload, AppError>)
        ensures
            match r {
                Ok(p) => exists|now: i64| #[trigger] verified_identity(self.secret(), token@, now as int) == Some(p@),
                Err(e) => is_unauthorized(e),
            },
    {
        let now = current_timestamp();
        let r = self.verify_token_at(token, now);
        proof {
            if r is Ok {
                assert(verified_identity(self.secret(), token@, now as int) == Some(r->Ok_0@));
            }
        }
        r
    }
}

/// A token issued for an identity at `issued_at` proves that identity at every
/// time up to seven days later, and nothing after that.
pub proof fn lemma_token_round_trip(secret: Seq<char>, token: Seq<char>, p: PayloadView, issued_at: int, now: int)
    requires
        token_claims(secret, token) == Some(issued_claims(p, issued_at)),
    ensures
        now <= issued_at + TOKEN_LIFETIME_SECONDS ==> verified_identity(secret, token, now) == Some(p),
        now > issued_at + TOKEN_LIFETIME_SECONDS ==> verified_identity(secret, token, now) is None,
{
}

/// A token whose signature or structure does not check out, or whose payload
/// lacks a claim, proves nothing at any time.
pub proof fn lemma_forged_token_rejected(secret: Seq<char>, token: Seq<char>, now: int)
    requires
        token_claims(secret, token) is None,
    ensures
        verified_identity(secret, token, now) is None,
{
}

} // verus!
