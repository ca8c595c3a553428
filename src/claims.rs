use vstd::prelude::*;
use crate::users::{PayloadView, UserPayload};

verus! {

/// The claims of a token: the identity and its expiry, in seconds since the epoch.
#[derive(Debug, Clone)]
pub struct Claims {
    pub sub: i32,
    pub name: String,
    pub phone: String,
    pub role: String,
    pub exp: i64,
}

/// The mathematical value of a token's claims.
pub struct ClaimsView {
    pub sub: int,
    pub name: Seq<char>,
    pub phone: Seq<char>,
    pub role: Seq<char>,
    pub exp: int,
}

impl View for Claims {
    type V = ClaimsView;

    open spec fn view(&self) -> ClaimsView {
        ClaimsView { sub: self.sub as int, name: self.name@, phone: self.phone@, role: self.role@, exp: self.exp as int }
    }
}

/// The claims of an identity that expire at `exp`.
pub open spec fn claims_of(p: PayloadView, exp: int) -> ClaimsView {
    ClaimsView { sub: p.id, name: p.name, phone: p.phone, role: p.role, exp }
}

/// The identity that claims carry.
pub open spec fn payload_of(c: ClaimsView) -> PayloadView {
    PayloadView { id: c.sub, name: c.name, phone: c.phone, role: c.role }
}

/// The integer under `key` in the JSON object `text`, as serde_json reads it;
/// `None` when `text` is not JSON, the key is missing or its value is not an
/// integer that fits 64 bits.
pub uninterp spec fn json_int_field(text: Seq<char>, key: Seq<char>) -> Option<int>;

/// The string under `key` in the JSON object `text`, as serde_json reads it;
/// `None` when `text` is not JSON, the key is missing or its value is not a string.
pub uninterp spec fn json_str_field(text: Seq<char>, key: Seq<char>) -> Option<Seq<char>>;

/// Relies on `serde_json::from_str::<serde_json::Value>`, `Value::get` and
/// `Value::as_i64`: the integer under `key`, when `text` is JSON holding one.
/// It depends on its two arguments alone.
#[verifier::external_body]
fn read_int_field(text: &str, key: &str) -> (r: Option<i64>)
    ensures
        json_int_field(text@, key@) == match r {
            Some(v) => Some(v as int),
            None => None::<int>,
        },
{
    let value = serde_json::from_str::<serde_json::Value>(text).ok()?;
    value.get(key)?.as_i64()
}

/// Relies on `serde_json::from_str::<serde_json::Value>`, `Value::get` and
/// `Value::as_str`: the string under `key`, when `text` is JSON holding one.
/// It depends on its two arguments alone.
#[verifier::external_body]
fn read_str_field(text: &str, key: &str) -> (r: Option<String>)
    ensures
        json_str_field(text@, key@) == match r {
            Some(v) => Some(v@),
            None => None::<Seq<char>>,
        },
{
    let value = serde_json::from_str::<serde_json::Value>(text).ok()?;
    Some(value.get(key)?.as_str()?.to_string())
}

/// The claims that the JSON object `text` holds: `sub` and `exp` integers (the
/// subject fitting 32 bits), `name`, `phone` and `role` strings. Other fields
/// and the order of fields do not matter.
pub open spec fn claims_in_json(text: Seq<char>) -> Option<ClaimsView> {
    match (
        json_int_field(text, "sub"@),
        json_str_field(text, "name"@),
        json_str_field(text, "phone"@),
        json_str_field(text, "role"@),
        json_int_field(text, "exp"@),
    ) {
        (Some(sub), Some(name), Some(phone), Some(role), Some(exp)) => {
            if i32::MIN <= sub <= i32::MAX {
                Some(ClaimsView { sub, name, phone, role, exp })
            } else {
                None
            }
        },
        _ => None,
    }
}

/// The claims that the JSON object `text` holds, if it holds them all.
pub fn claims_from_json(text: &str) -> (r: Option<Claims>)
    ensures
        match claims_in_json(text@) {
            Some(c) => r is Some && r->Some_0@ == c,
            None => r is None,
        },
{
    let sub = read_int_field(text, "sub");
    let name = read_str_field(text, "name");
    let phone = read_str_field(text, "phone");
    let role = read_str_field(text, "role");
    let exp = read_int_field(text, "exp");
    match (sub, name, phone, role, exp) {
        (Some(sub), Some(name), Some(phone), Some(role), Some(exp)) => {
            if sub < i32::MIN as i64 || sub > i32::MAX as i64 {
                None
            } else {
                Some(Claims { sub: sub as i32, name, phone, role, exp })
            }
        },
        _ => None,
    }
}

impl Claims {
    /// The claims of an identity that expire at `exp`.
    pub fn for_payload(payload: &UserPayload, exp: i64) -> (r: Claims)
        ensures
            r@ == claims_of(payload@, exp as int),
    {
        Claims {
            sub: payload.id,
            name: payload.name.clone(),
            phone: payload.phone.clone(),
            role: payload.role.clone(),
            exp,
        }
    }

    /// The identity that the claims carry.
    pub fn into_payload(self) -> (r: UserPayload)
        ensures
            r@ == payload_of(self@),
    {
        UserPayload { id: self.sub, name: self.name, phone: self.phone, role: self.role }
    }
}

} // verus!
