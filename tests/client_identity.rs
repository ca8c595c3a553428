use prestagest::client_id::{
    extract_client_identifier, extract_real_ip, extract_session_id, extract_token_id, fallback_id_from_digest,
    generate_fallback_id, is_valid_ip, RequestMeta,
};

fn meta(headers: &[(&str, &str)]) -> RequestMeta {
    RequestMeta {
        headers: headers.iter().map(|(n, v)| (n.to_string(), v.to_string())).collect(),
        peer_ip: None,
    }
}

#[test]
fn forwarded_for_first_entry_is_the_key() {
    let m = meta(&[("x-forwarded-for", "203.0.113.5, 10.0.0.1")]);
    assert_eq!(extract_client_identifier(&m), "ip_203.0.113.5");
}

#[test]
fn bearer_session_hint_takes_first_ten_characters() {
    let m = meta(&[("authorization", "Bearer abcdefghij1234")]);
    assert_eq!(extract_session_id(&m).as_deref(), Some("abcdefghij"));
    assert_eq!(extract_client_identifier(&m), "session_abcdefghij");
}

#[test]
fn short_bearer_falls_to_token_id() {
    let m = meta(&[("authorization", "Bearer abcdefgh")]);
    assert_eq!(extract_session_id(&m), None);
    assert_eq!(extract_token_id(&m).as_deref(), Some("abcdefgh"));
    assert_eq!(extract_client_identifier(&m), "token_abcdefgh");
}

#[test]
fn token_id_is_last_eight_characters() {
    let m = meta(&[("authorization", "Bearer 0123456789xyz")]);
    assert_eq!(extract_token_id(&m).as_deref(), Some("56789xyz"));
}

#[test]
fn loopback_and_placeholders_are_not_addresses() {
    assert!(!is_valid_ip(""));
    assert!(!is_valid_ip("unknown"));
    assert!(!is_valid_ip("127.0.0.1"));
    assert!(!is_valid_ip("localhost"));
    assert!(!is_valid_ip("abc"));
    assert!(is_valid_ip("10.0.0.1"));
    assert!(!is_valid_ip("::1"));
    assert!(is_valid_ip("2001:db8::1"));
}

#[test]
fn address_headers_in_priority_order() {
    let m = meta(&[("x-real-ip", "198.51.100.2"), ("x-forwarded-for", "127.0.0.1"), ("true-client-ip", "192.0.2.9")]);
    assert_eq!(extract_real_ip(&m).as_deref(), Some("198.51.100.2"));
    let m = meta(&[("cf-connecting-ip", "  192.0.2.1 ,x"), ("x-client-ip", "unknown")]);
    assert_eq!(extract_real_ip(&m).as_deref(), Some("192.0.2.1"));
}

#[test]
fn first_header_of_a_name_counts() {
    let m = meta(&[("x-forwarded-for", "localhost"), ("x-forwarded-for", "192.0.2.1")]);
    assert_eq!(extract_real_ip(&m), None);
}

#[test]
fn peer_address_is_the_last_resort() {
    let mut m = meta(&[]);
    m.peer_ip = Some("192.0.2.44".to_string());
    assert_eq!(extract_client_identifier(&m), "ip_192.0.2.44");
    m.peer_ip = Some("127.0.0.1".to_string());
    assert_eq!(extract_real_ip(&m), None);
}

#[test]
fn session_headers_skip_placeholders() {
    let m = meta(&[("x-session-id", " undefined "), ("session-id", "null"), ("x-auth-token", "  tok-1  ")]);
    assert_eq!(extract_client_identifier(&m), "session_tok-1");
}

#[test]
fn fallback_digest_is_cut_to_eight_hex_digits() {
    assert_eq!(fallback_id_from_digest(0xdead_beef_cafe_f00d), "deadbeef");
    assert_eq!(fallback_id_from_digest(0x1234), "00001234");
    assert_eq!(fallback_id_from_digest(0x1234_5678), "12345678");
    assert_eq!(fallback_id_from_digest(0), "00000000");
}

#[test]
fn fallback_fingerprint_depends_on_headers() {
    let a = meta(&[("user-agent", "curl/8")]);
    let b = meta(&[("user-agent", "firefox")]);
    let ida = generate_fallback_id(&a);
    assert_eq!(ida.len(), 8);
    assert!(ida.chars().all(|c| c.is_ascii_hexdigit()));
    assert_eq!(ida, generate_fallback_id(&a));
    assert_ne!(ida, generate_fallback_id(&b));
    assert_eq!(extract_client_identifier(&a), format!("client_{}", ida));
}

#[test]
fn request_without_headers_gets_a_fingerprint() {
    let m = meta(&[]);
    let id = extract_client_identifier(&m);
    assert!(id.starts_with("client_"));
    assert_eq!(id.len(), "client_".len() + 8);
}

#[test]
fn empty_forwarded_entry_falls_through() {
    let m = meta(&[("x-forwarded-for", ",203.0.113.5"), ("x-real-ip", "198.51.100.3")]);
    assert_eq!(extract_client_identifier(&m), "ip_198.51.100.3");
}
