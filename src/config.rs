use vstd::prelude::*;
use crate::text::{
    all_dec_digits, comma_index, decimal_text, digits_value, first_field_of, lemma_comma_index_bound,
    lemma_digits_monotone, lemma_digits_prefix, push_decimal, same_text, text_from, trim_text, trimmed,
};

verus! {

/// The port used when none is configured or the configured one does not parse.
pub const DEFAULT_PORT: u16 = 3000;

#[derive(Debug, Clone)]
pub struct ServerConfig {
    pub host: String,
    pub port: u16,
    pub cors_origins: Vec<String>,
    pub jwt_secret: String,
}

#[derive(Debug, Clone)]
pub struct AppConfig {
    pub env: String,
    pub name: String,
    pub master_password: String,
}

#[derive(Debug, Clone)]
pub struct DatabaseConfig {
    pub url: String,
}

#[derive(Debug, Clone)]
pub struct Config {
    pub server: ServerConfig,
    pub app: AppConfig,
    pub database: DatabaseConfig,
}

/// The raw settings the process was started with; a missing one is `None`.
#[derive(Debug, Clone)]
pub struct ConfigSource {
    pub app_env: Option<String>,
    pub app_name: Option<String>,
    pub server_host: Option<String>,
    pub database_url: Option<String>,
    pub server_port: Option<String>,
    pub jwt_secret: Option<String>,
    pub master_password: Option<String>,
    pub cors_origins: Option<String>,
}

/// The port that `s` writes as `u16::from_str` reads it: an optional plus
/// sign, then decimal digits, at most 65535.
pub open spec fn port_of_text(s: Seq<char>) -> Option<u16> {
    let d = if s.len() > 0 && s[0] == '+' { s.skip(1) } else { s };
    if all_dec_digits(d) && digits_value(d) <= 65535 { Some(digits_value(d) as u16) } else { None }
}

/// The comma-separated fields of `s`, in order.
pub open spec fn comma_fields(s: Seq<char>) -> Seq<Seq<char>>
    decreases s.len(),
    via comma_fields_decreases
{
    let k = comma_index(s);
    if k >= s.len() {
        seq![s]
    } else {
        seq![s.take(k as int)] + comma_fields(s.skip(k as int + 1))
    }
}

#[via_fn]
proof fn comma_fields_decreases(s: Seq<char>) {
    lemma_comma_index_bound(s);
}

/// Whether a trimmed field names an origin.
pub open spec fn keeps_origin(t: Seq<char>) -> bool {
    t != "undefined"@ && t.len() > 0
}

/// The allowed origins of a comma-separated list: each field trimmed, with
/// empty ones and the literal `undefined` dropped.
pub open spec fn origins_of(s: Seq<char>) -> Seq<Seq<char>> {
    comma_fields(s).map_values(|f: Seq<char>| trimmed(f)).filter(|t: Seq<char>| keeps_origin(t))
}

pub open spec fn text_or(v: Option<String>, default: Seq<char>) -> Seq<char> {
    match v {
        Some(s) => s@,
        None => default,
    }
}

/// The configuration that settings give, each missing one replaced by its default.
pub open spec fn config_from(src: ConfigSource, c: Config) -> bool {
    &&& c.app.env@ == text_or(src.app_env, "development"@)
    &&& c.app.name@ == text_or(src.app_name, "prestagest"@)
    &&& c.server.host@ == text_or(src.server_host, "127.0.0.1"@)
    &&& c.database.url@ == text_or(src.database_url, "file:data/prestagest.db"@)
    &&& c.server.port == match port_of_text(text_or(src.server_port, "3000"@)) {
        Some(p) => p,
        None => DEFAULT_PORT,
    }
    &&& c.server.jwt_secret@ == text_or(src.jwt_secret, "12345678"@)
    &&& c.app.master_password@ == text_or(src.master_password, "KeyMaster123"@)
    &&& c.server.cors_origins@.map_values(|o: String| o@) == origins_of(
        text_or(src.cors_origins, "http://localhost:1420,http://localhost:8000"@),
    )
}

fn or_default(v: Option<String>, default: &str) -> (r: String)
    ensures
        r@ == text_or(v, default@),
{
    match v {
        Some(s) => s,
        None => String::from_str(default),
    }
}

/// Reads a port as `u16::from_str` does.
pub fn parse_port(s: &str) -> (r: Option<u16>)
    ensures
        r == port_of_text(s@),
{
    let n = s.unicode_len();
    let start: usize = if n > 0 && s.get_char(0) == '+' { 1 } else { 0 };
    let ghost d = s@.skip(start as int);
    proof { if start == 0 { assert(d =~= s@); } }
    if start == n {
        return None;
    }
    let mut acc: u32 = 0;
    let mut i: usize = start;
    proof { assert(d.take(0) =~= Seq::<char>::empty()); }
    while i < n
        invariant
            n == s@.len(),
            d == s@.skip(start as int),
            start < n,
            port_of_text(s@) == (if all_dec_digits(d) && digits_value(d) <= 65535 {
                Some(digits_value(d) as u16)
            } else {
                None::<u16>
            }),
            start <= i <= n,
            acc == digits_value(d.take(i - start)),
            acc <= 65535,
            forall|k: int| 0 <= k < i - start ==> crate::text::is_dec_digit(#[trigger] d[k]),
        decreases n - i,
    {
        let c = s.get_char(i);
        assert(d[i - start] == c);
        let v = c as u32;
        if v < 0x30 || v > 0x39 {
            assert(!all_dec_digits(d));
            return None;
        }
        proof { lemma_digits_prefix(d, i - start); }
        acc = acc * 10 + (v - 0x30);
        i = i + 1;
        if acc > 65535 {
            proof {
                if all_dec_digits(d) {
                    lemma_digits_monotone(d, i - start, d.len() as int);
                    assert(d.take(d.len() as int) =~= d);
                }
            }
            return None;
        }
    }
    proof { assert(d.take(n - start) =~= d); }
    Some(acc as u16)
}

/// The allowed origins of a comma-separated list.
pub fn parse_origins(s: &str) -> (r: Vec<String>)
    ensures
        r@.map_values(|o: String| o@) == origins_of(s@),
{
    let mut out: Vec<String> = Vec::new();
    let mut rest = String::from_str(s);
    proof {
        assert(out@.map_values(|o: String| o@) =~= Seq::<Seq<char>>::empty());
        assert(origins_of(s@) =~= Seq::<Seq<char>>::empty() + origins_of(rest@));
    }
    loop
        invariant
            origins_of(s@) == out@.map_values(|o: String| o@) + origins_of(rest@),
        decreases rest@.len(),
    {
        let field = first_field_of(rest.as_str());
        let t = trim_text(field.as_str());
        let k = field.as_str().unicode_len();
        let n = rest.as_str().unicode_len();
        let ghost before = out@.map_values(|o: String| o@);
        let ghost r0 = rest@;
        proof {
            lemma_comma_index_bound(r0);
            let fields = comma_fields(r0);
            let tail = if k >= n { Seq::<Seq<char>>::empty() } else { comma_fields(r0.skip(k as int + 1)) };
            assert(field@ == r0.take(comma_index(r0) as int));
            assert(k == comma_index(r0));
            if k >= n {
                assert(field@ =~= r0);
            }
            assert(fields =~= seq![field@] + tail);
            let m = fields.map_values(|f: Seq<char>| trimmed(f));
            assert(m =~= seq![t@] + tail.map_values(|f: Seq<char>| trimmed(f)));
            Seq::filter_distributes_over_add(seq![t@], tail.map_values(|f: Seq<char>| trimmed(f)), |x: Seq<char>| keeps_origin(x));
            reveal_with_fuel(Seq::filter, 2);
        }
        let kept = !same_text(t.as_str(), "undefined") && t.as_str().unicode_len() > 0;
        if kept {
            out.push(t);
        }
        proof {
            assert(seq![t@].filter(|x: Seq<char>| keeps_origin(x)) =~= (if kept { seq![t@] } else { Seq::<Seq<char>>::empty() }));
            assert(out@.map_values(|o: String| o@) =~= before + (if kept { seq![t@] } else { Seq::<Seq<char>>::empty() }));
        }
        if k >= n {
            proof {
                assert(Seq::<Seq<char>>::empty().map_values(|f: Seq<char>| trimmed(f)).filter(|x: Seq<char>| keeps_origin(x)) =~= Seq::<Seq<char>>::empty());
                assert(origins_of(s@) =~= out@.map_values(|o: String| o@));
            }
            return out;
        }
        rest = text_from(rest.as_str(), k + 1);
        proof {
            assert(origins_of(s@) =~= out@.map_values(|o: String| o@) + origins_of(rest@));
        }
    }
}

impl Config {
    /// The configuration that settings give, each missing one replaced by its
    /// default and a port that does not parse replaced by 3000.
    pub fn from_source(src: ConfigSource) -> (r: Config)
        ensures
            config_from(src, r),
    {
        let port_text = or_default(src.server_port, "3000");
        let port = match parse_port(port_text.as_str()) {
            Some(p) => p,
            None => DEFAULT_PORT,
        };
        let cors_text = or_default(src.cors_origins, "http://localhost:1420,http://localhost:8000");
        let cors_origins = parse_origins(cors_text.as_str());
        Config {
            server: ServerConfig {
                host: or_default(src.server_host, "127.0.0.1"),
                port,
                cors_origins,
                jwt_secret: or_default(src.jwt_secret, "12345678"),
            },
            app: AppConfig {
                env: or_default(src.app_env, "development"),
                name: or_default(src.app_name, "prestagest"),
                master_password: or_default(src.master_password, "KeyMaster123"),
            },
            database: DatabaseConfig { url: or_default(src.database_url, "file:data/prestagest.db") },
        }
    }

    /// `host:port` of the server.
    pub fn server_address(&self) -> (r: String)
        ensures
            r@ == self.server.host@ + ":"@ + decimal_text(self.server.port as nat),
    {
        let mut out = String::from_str(self.server.host.as_str());
        out.append(":");
        push_decimal(&mut out, self.server.port as u64);
        out
    }
}

} // verus!
