use vstd::prelude::*;
use crate::text::{
    first_field, first_field_of, has_char, has_prefix, hex_text, join_text, push_hex, same_text,
    starts_with_text, text_from, text_take, trim_text, trimmed,
};

verus! {

/// What client identification reads of an inbound request.
pub struct RequestMeta {
    /// Header names, lower case, with their values as text, in arrival order.
    /// A value that is not visible text is left out.
    pub headers: Vec<(String, String)>,
    /// The peer's address, when the transport reports one.
    pub peer_ip: Option<String>,
}

/// The value of the first header named `name`.
pub open spec fn header_in(h: Seq<(String, String)>, name: Seq<char>) -> Option<Seq<char>>
    decreases h.len(),
{
    if h.len() == 0 {
        None
    } else if h[0].0@ == name {
        Some(h[0].1@)
    } else {
        header_in(h.drop_first(), name)
    }
}

pub open spec fn text_opt(v: Option<String>) -> Option<Seq<char>> {
    match v {
        Some(s) => Some(s@),
        None => None,
    }
}

/// The prefix of a bearer credential.
pub open spec fn bearer_prefix() -> Seq<char> {
    "Bearer "@
}

/// An address usable as a client's identity: not empty, not a loopback or
/// placeholder name, and shaped like IPv4 or IPv6.
pub open spec fn valid_ip(ip: Seq<char>) -> bool {
    &&& ip.len() > 0
    &&& ip != "unknown"@
    &&& ip != "127.0.0.1"@
    &&& ip != "localhost"@
    &&& ip != "::1"@
    &&& (ip.contains('.') || ip.contains(':'))
}

/// The address that a forwarding header names: its first comma-separated
/// entry, trimmed, when valid.
pub open spec fn ip_in_value(v: Option<Seq<char>>) -> Option<Seq<char>> {
    match v {
        Some(x) => {
            let t = trimmed(first_field(x));
            if valid_ip(t) { Some(t) } else { None }
        },
        None => None,
    }
}

/// The client's address: from the forwarding headers in priority order, then
/// from the peer address.
pub open spec fn real_ip_of(m: RequestMeta) -> Option<Seq<char>> {
    let h = m.headers@;
    let c1 = ip_in_value(header_in(h, "x-forwarded-for"@));
    let c2 = ip_in_value(header_in(h, "x-real-ip"@));
    let c3 = ip_in_value(header_in(h, "x-client-ip"@));
    let c4 = ip_in_value(header_in(h, "cf-connecting-ip"@));
    let c5 = ip_in_value(header_in(h, "true-client-ip"@));
    if c1 is Some {
        c1
    } else if c2 is Some {
        c2
    } else if c3 is Some {
        c3
    } else if c4 is Some {
        c4
    } else if c5 is Some {
        c5
    } else {
        match m.peer_ip {
            Some(p) => if valid_ip(p@) { Some(p@) } else { None },
            None => None,
        }
    }
}

/// The session hint that one header gives. For the authorization header only
/// the first ten characters of a bearer credential longer than ten count.
pub open spec fn session_in_value(v: Option<Seq<char>>, is_authorization: bool) -> Option<Seq<char>> {
    match v {
        Some(x) => {
            let t = trimmed(x);
            if t.len() > 0 && t != "undefined"@ && t != "null"@ {
                if !is_authorization {
                    Some(t)
                } else if has_prefix(t, bearer_prefix()) && t.len() - bearer_prefix().len() > 10 {
                    Some(t.skip(bearer_prefix().len() as int).take(10))
                } else {
                    None
                }
            } else {
                None
            }
        },
        None => None,
    }
}

/// The client's session hint, from the session headers in priority order.
pub open spec fn session_id_of(m: RequestMeta) -> Option<Seq<char>> {
    let h = m.headers@;
    let c1 = session_in_value(header_in(h, "x-session-id"@), false);
    let c2 = session_in_value(header_in(h, "session-id"@), false);
    let c3 = session_in_value(header_in(h, "x-auth-token"@), false);
    let c4 = session_in_value(header_in(h, "authorization"@), true);
    if c1 is Some {
        c1
    } else if c2 is Some {
        c2
    } else if c3 is Some {
        c3
    } else {
        c4
    }
}

/// The last eight characters of a bearer credential of at least eight.
pub open spec fn token_id_of(m: RequestMeta) -> Option<Seq<char>> {
    match header_in(m.headers@, "authorization"@) {
        Some(v) => {
            if has_prefix(v, bearer_prefix()) && v.len() - bearer_prefix().len() >= 8 {
                Some(v.skip(v.len() - 8))
            } else {
                None
            }
        },
        None => None,
    }
}

/// The digest that std's default hasher gives of three strings fed in order.
pub uninterp spec fn header_digest(user_agent: Seq<char>, language: Seq<char>, encoding: Seq<char>) -> u64;

/// A header's value, or `default` when it is missing.
pub open spec fn value_or(v: Option<Seq<char>>, default: Seq<char>) -> Seq<char> {
    match v {
        Some(x) => x,
        None => default,
    }
}

/// Eight hexadecimal digits of `digest`: its first eight, or all of them
/// behind leading zeros when it has fewer.
pub open spec fn digest_prefix(digest: u64) -> Seq<char> {
    let hx = hex_text(digest as nat);
    if hx.len() >= 8 { hx.take(8) } else { Seq::new((8 - hx.len()) as nat, |i: int| '0') + hx }
}

/// The fingerprint of a request with no better identity.
pub open spec fn fallback_id_of(m: RequestMeta) -> Seq<char> {
    let h = m.headers@;
    digest_prefix(
        header_digest(
            value_or(header_in(h, "user-agent"@), "no_ua"@),
            value_or(header_in(h, "accept-language"@), "no_lang"@),
            value_or(header_in(h, "accept-encoding"@), "no_enc"@),
        ),
    )
}

/// The key under which a request is throttled: first match wins among the
/// client's address, its session hint, its bearer credential and a fingerprint.
pub open spec fn client_identifier_of(m: RequestMeta) -> Seq<char> {
    match real_ip_of(m) {
        Some(ip) => "ip_"@ + ip,
        None => match session_id_of(m) {
            Some(s) => "session_"@ + s,
            None => match token_id_of(m) {
                Some(t) => "token_"@ + t,
                None => "client_"@ + fallback_id_of(m),
            },
        },
    }
}

/// Relies on std's `DefaultHasher`: made by `DefaultHasher::new` (fixed keys),
/// fed the three strings in order through `Hash for str`, read by `finish`. The
/// digest depends on the three strings alone.
#[verifier::external_body]
fn digest_of_headers(user_agent: &str, language: &str, encoding: &str) -> (r: u64)
    ensures
        r == header_digest(user_agent@, language@, encoding@),
{
    let mut hasher = std::collections::hash_map::DefaultHasher::new();
    std::hash::Hash::hash(user_agent, &mut hasher);
    std::hash::Hash::hash(language, &mut hasher);
    std::hash::Hash::hash(encoding, &mut hasher);
    std::hash::Hasher::finish(&hasher)
}

impl RequestMeta {
    /// The value of the first header named `name`.
    pub fn header(&self, name: &str) -> (r: Option<String>)
        ensures
            text_opt(r) == header_in(self.headers@, name@),
    {
        let mut i: usize = 0;
        assert(self.headers@.skip(0) =~= self.headers@);
        while i < self.headers.len()
            invariant
                i <= self.headers@.len(),
                header_in(self.headers@, name@) == header_in(self.headers@.skip(i as int), name@),
            decreases self.headers@.len() - i,
        {
            let ghost rest = self.headers@.skip(i as int);
            assert(rest[0] == self.headers@[i as int]);
            if same_text(self.headers[i].0.as_str(), name) {
                let v = self.headers[i].1.clone();
                assert(header_in(rest, name@) == Some(v@));
                return Some(v);
            }
            assert(rest.drop_first() =~= self.headers@.skip(i + 1));
            i = i + 1;
        }
        None
    }
}

/// Whether `ip` can serve as a client's identity.
pub fn is_valid_ip(ip: &str) -> (r: bool)
    ensures
        r == valid_ip(ip@),
{
    ip.unicode_len() > 0 && !same_text(ip, "unknown") && !same_text(ip, "127.0.0.1") && !same_text(
        ip,
        "localhost",
    ) && !same_text(ip, "::1") && (has_char(ip, '.') || has_char(ip, ':'))
}

fn ip_in_header(meta: &RequestMeta, name: &str) -> (r: Option<String>)
    ensures
        text_opt(r) == ip_in_value(header_in(meta.headers@, name@)),
{
    match meta.header(name) {
        Some(v) => {
            let field = first_field_of(v.as_str());
            let t = trim_text(field.as_str());
            if is_valid_ip(t.as_str()) {
                Some(t)
            } else {
                None
            }
        },
        None => None,
    }
}

/// The client's address, from the forwarding headers in priority order, then
/// from the peer address.
pub fn extract_real_ip(meta: &RequestMeta) -> (r: Option<String>)
    ensures
        text_opt(r) == real_ip_of(*meta),
{
    if let Some(ip) = ip_in_header(meta, "x-forwarded-for") {
        return Some(ip);
    }
    if let Some(ip) = ip_in_header(meta, "x-real-ip") {
        return Some(ip);
    }
    if let Some(ip) = ip_in_header(meta, "x-client-ip") {
        return Some(ip);
    }
    if let Some(ip) = ip_in_header(meta, "cf-connecting-ip") {
        return Some(ip);
    }
    if let Some(ip) = ip_in_header(meta, "true-client-ip") {
        return Some(ip);
    }
    match &meta.peer_ip {
        Some(p) => {
            if is_valid_ip(p.as_str()) {
                Some(p.clone())
            } else {
                None
            }
        },
        None => None,
    }
}

fn session_in_header(meta: &RequestMeta, name: &str, is_authorization: bool) -> (r: Option<String>)
    ensures
        text_opt(r) == session_in_value(header_in(meta.headers@, name@), is_authorization),
{
    match meta.header(name) {
        Some(v) => {
            let t = trim_text(v.as_str());
            if t.as_str().unicode_len() > 0 && !same_text(t.as_str(), "undefined") && !same_text(
                t.as_str(),
                "null",
            ) {
                if !is_authorization {
                    Some(t)
                } else {
                    proof { reveal_strlit("Bearer "); }
                    if starts_with_text(t.as_str(), "Bearer ") && t.as_str().unicode_len() - 7 > 10 {
                        let rest = text_from(t.as_str(), 7);
                        Some(text_take(rest.as_str(), 10))
                    } else {
                        None
                    }
                }
            } else {
                None
            }
        },
        None => None,
    }
}

/// The client's session hint, from the session headers in priority order.
pub fn extract_session_id(meta: &RequestMeta) -> (r: Option<String>)
    ensures
        text_opt(r) == session_id_of(*meta),
{
    if let Some(s) = session_in_header(meta, "x-session-id", false) {
        return Some(s);
    }
    if let Some(s) = session_in_header(meta, "session-id", false) {
        return Some(s);
    }
    if let Some(s) = session_in_header(meta, "x-auth-token", false) {
        return Some(s);
    }
    session_in_header(meta, "authorization", true)
}

/// The last eight characters of the bearer credential, if it has eight.
pub fn extract_token_id(meta: &RequestMeta) -> (r: Option<String>)
    ensures
        text_opt(r) == token_id_of(*meta),
{
    match meta.header("authorization") {
        Some(v) => {
            proof { reveal_strlit("Bearer "); }
            let n = v.as_str().unicode_len();
            if starts_with_text(v.as_str(), "Bearer ") && n - 7 >= 8 {
                Some(text_from(v.as_str(), n - 8))
            } else {
                None
            }
        },
        None => None,
    }
}

/// Eight hexadecimal digits of a fingerprint digest.
pub fn fallback_id_from_digest(digest: u64) -> (r: String)
    ensures
        r@ == digest_prefix(digest),
        r@.len() == 8,
{
    let mut hx = String::new();
    push_hex(&mut hx, digest);
    assert(hx@ =~= hex_text(digest as nat));
    let n = hx.as_str().unicode_len();
    if n >= 8 {
        return text_take(hx.as_str(), 8);
    }
    let mut out = String::new();
    let mut i: usize = 0;
    while i < 8 - n
        invariant
            n < 8,
            i <= 8 - n,
            out@ == Seq::new(i as nat, |j: int| '0'),
        decreases 8 - n - i,
    {
        out.append("0");
        proof { reveal_strlit("0"); }
        i = i + 1;
        assert(out@ =~= Seq::new(i as nat, |j: int| '0'));
    }
    out.append(hx.as_str());
    assert(out@ =~= digest_prefix(digest));
    out
}

/// A fingerprint of the request's user agent and accept headers.
pub fn generate_fallback_id(meta: &RequestMeta) -> (r: String)
    ensures
        r@ == fallback_id_of(*meta),
{
    let ua = match meta.header("user-agent") {
        Some(v) => v,
        None => String::from_str("no_ua"),
    };
    let lang = match meta.header("accept-language") {
        Some(v) => v,
        None => String::from_str("no_lang"),
    };
    let enc = match meta.header("accept-encoding") {
        Some(v) => v,
        None => String::from_str("no_enc"),
    };
    let digest = digest_of_headers(ua.as_str(), lang.as_str(), enc.as_str());
    fallback_id_from_digest(digest)
}

/// The key under which a request is throttled.
pub fn extract_client_identifier(meta: &RequestMeta) -> (r: String)
    ensures
        r@ == client_identifier_of(*meta),
{
    if let Some(ip) = extract_real_ip(meta) {
        return join_text("ip_", ip.as_str());
    }
    if let Some(s) = extract_session_id(meta) {
        return join_text("session_", s.as_str());
    }
    if let Some(t) = extract_token_id(meta) {
        return join_text("token_", t.as_str());
    }
    let f = generate_fallback_id(meta);
    join_text("client_", f.as_str())
}

} // verus!
