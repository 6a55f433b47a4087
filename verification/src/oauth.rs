//! Browser sign-in through the identity service: the auth configuration,
//! cookies, PKCE challenges, and where a signed-in user is sent back to.
use crate::error::fails_with;
use crate::error::ApiError;
use crate::text::chars_eq;
use crate::text::chars_of;
use crate::text::concat2;
use crate::text::concat3;
use crate::text::extend_chars;
use crate::text::find_first;
use crate::text::first_index_of;
use crate::text::int_decimal;
use crate::text::is_ascii_alnum;
use crate::text::is_control;
use crate::text::is_control_exec;
use crate::text::nat_decimal;
use crate::text::opt_view;
use crate::text::owned;
use crate::text::push_i64_decimal;
use crate::text::push_u64_decimal;
use crate::text::split_chars;
use crate::text::split_on;
use crate::text::str_eq_chars;
use crate::text::string_from;
use crate::text::string_of;
use crate::text::sub_chars;
use crate::text::trailing_end;
use crate::text::trim;
use crate::text::trim_bounds;
use crate::text::trim_trailing;
use crate::text::views;
use base64::Engine;
use rand::distr::SampleString;
use sha2::Digest;
use vstd::prelude::*;
use vstd::utf8::encode_utf8;

verus! {

// ---------------------------------------------------------------------------
// Auth configuration
// ---------------------------------------------------------------------------

/// Whether sign-in is on, and where it starts.
#[derive(Debug)]
pub struct AuthConfigResponse {
    pub enabled: bool,
    pub login_url: Option<String>,
    pub herald_login_url: Option<String>,
}

/// The login page of the identity service: its base URL without trailing
/// slashes, then `/{realm_id}/auth/login`.
pub open spec fn herald_login_url_spec(base_url: Seq<char>, realm_id: Seq<char>) -> Seq<char> {
    trim_trailing(base_url, '/') + seq!['/'] + realm_id + "/auth/login"@
}

/// The auth configuration shown to the web console, given the identity
/// service's base URL and realm when one is configured.
pub fn get_auth_config(herald: Option<(&str, &str)>) -> (r: AuthConfigResponse)
    ensures
        r.enabled == herald is Some,
        opt_view(r.login_url) == (match herald {
            Some(_) => Some("/api/auth/oauth/start"@),
            None => None,
        }),
        opt_view(r.herald_login_url) == (match herald {
            Some((base, realm)) => Some(herald_login_url_spec(base@, realm@)),
            None => None,
        }),
{
    match herald {
        Some((base, realm)) => {
            let b = chars_of(base);
            let end = trailing_end(&b, '/');
            let mut v = sub_chars(&b, 0, end);
            v.push('/');
            let rv = chars_of(realm);
            extend_chars(&mut v, &rv);
            let tail = chars_of("/auth/login");
            extend_chars(&mut v, &tail);
            proof {
                assert(v@ =~= herald_login_url_spec(base@, realm@));
            }
            AuthConfigResponse {
                enabled: true,
                login_url: Some(owned("/api/auth/oauth/start")),
                herald_login_url: Some(string_from(&v)),
            }
        },
        None => AuthConfigResponse { enabled: false, login_url: None, herald_login_url: None },
    }
}

/// Query of the sign-in start: the app URL to return to.
#[derive(Debug)]
pub struct OAuthStartQuery {
    pub redirect: Option<String>,
}

/// Query of the sign-in callback.
#[derive(Debug)]
pub struct OAuthCallbackQuery {
    pub code: String,
    pub state: String,
}

/// Answer of a token refresh: seconds until the new access token expires.
#[derive(Debug)]
pub struct RefreshResponse {
    pub expires_in: i64,
}

/// What the sign-in start remembers in its cookie until the callback.
#[derive(Debug)]
pub struct OAuthCookie {
    pub state: String,
    pub code_verifier: String,
    pub return_to: String,
    pub redirect_uri: String,
}

// ---------------------------------------------------------------------------
// Random tokens and PKCE
// ---------------------------------------------------------------------------

/// `Alphanumeric.sample_string(&mut rand::rng(), len)`: `len` random ASCII
/// letters and digits. Which ones is left to chance.
#[verifier::external_body]
fn random_token(len: usize) -> (s: String)
    ensures
        s@.len() == len,
        forall|i: int| 0 <= i < len ==> is_ascii_alnum(#[trigger] s@[i]),
{
    rand::distr::Alphanumeric.sample_string(&mut rand::rng(), len)
}

/// A fresh `state` for a sign-in: 32 random letters and digits.
pub fn new_oauth_state() -> (s: String)
    ensures
        s@.len() == 32,
        forall|i: int| 0 <= i < 32 ==> is_ascii_alnum(#[trigger] s@[i]),
{
    random_token(32)
}

/// A fresh PKCE code verifier: 64 random letters and digits.
pub fn new_code_verifier() -> (s: String)
    ensures
        s@.len() == 64,
        forall|i: int| 0 <= i < 64 ==> is_ascii_alnum(#[trigger] s@[i]),
{
    random_token(64)
}

/// The name of what `Sha256::digest` computes: the SHA-256 digest.
pub uninterp spec fn sha256_of(data: Seq<u8>) -> Seq<u8>;

/// `Sha256::digest`: the 32-byte SHA-256 digest of `data`.
#[verifier::external_body]
fn sha256_digest(data: &[u8]) -> (d: Vec<u8>)
    ensures
        d@ == sha256_of(data@),
        d@.len() == 32,
{
    sha2::Sha256::digest(data).to_vec()
}

/// The character of a six-bit value in the URL-safe base64 alphabet.
pub open spec fn b64_char(v: int) -> char {
    if v < 26 {
        (65 + v) as char
    } else if v < 52 {
        (71 + v) as char
    } else if v < 62 {
        (v - 4) as char
    } else if v == 62 {
        '-'
    } else {
        '_'
    }
}

/// URL-safe base64 without padding (RFC 4648, section 5): each three
/// bytes become four characters; a final one or two bytes become two or
/// three.
pub open spec fn base64url_text(b: Seq<u8>) -> Seq<char>
    decreases b.len(),
{
    if b.len() == 0 {
        Seq::empty()
    } else if b.len() == 1 {
        seq![b64_char(b[0] as int / 4), b64_char((b[0] as int % 4) * 16)]
    } else if b.len() == 2 {
        seq![
            b64_char(b[0] as int / 4),
            b64_char((b[0] as int % 4) * 16 + b[1] as int / 16),
            b64_char((b[1] as int % 16) * 4),
        ]
    } else {
        seq![
            b64_char(b[0] as int / 4),
            b64_char((b[0] as int % 4) * 16 + b[1] as int / 16),
            b64_char((b[1] as int % 16) * 4 + b[2] as int / 64),
            b64_char(b[2] as int % 64),
        ] + base64url_text(b.skip(3))
    }
}

proof fn lemma_b64_char_injective(x: int, y: int)
    requires
        0 <= x < 64,
        0 <= y < 64,
        b64_char(x) == b64_char(y),
    ensures
        x == y,
{
}

proof fn lemma_group_injective(a0: u8, a1: u8, a2: u8, b0: u8, b1: u8, b2: u8)
    requires
        a0 / 4 == b0 / 4,
        (a0 % 4) * 16 + a1 / 16 == (b0 % 4) * 16 + b1 / 16,
        (a1 % 16) * 4 + a2 / 64 == (b1 % 16) * 4 + b2 / 64,
        a2 % 64 == b2 % 64,
    ensures
        a0 == b0,
        a1 == b1,
        a2 == b2,
{
    assert(a0 == b0 && a1 == b1 && a2 == b2) by (bit_vector)
        requires
            a0 / 4 == b0 / 4,
            (a0 % 4) * 16 + a1 / 16 == (b0 % 4) * 16 + b1 / 16,
            (a1 % 16) * 4 + a2 / 64 == (b1 % 16) * 4 + b2 / 64,
            a2 % 64 == b2 % 64,
    ;
}

proof fn lemma_base64url_len(b: Seq<u8>)
    ensures
        base64url_text(b).len() == 4 * (b.len() / 3) + (if b.len() % 3 == 0 {
            0int
        } else {
            (b.len() % 3 + 1) as int
        }),
    decreases b.len(),
{
    if b.len() >= 3 {
        lemma_base64url_len(b.skip(3));
    }
}

/// Different bytes never have the same URL-safe base64 text.
pub proof fn law_base64url_injective(a: Seq<u8>, b: Seq<u8>)
    requires
        base64url_text(a) == base64url_text(b),
    ensures
        a == b,
    decreases a.len(),
{
    lemma_base64url_len(a);
    lemma_base64url_len(b);
    let t = base64url_text(a);
    assert(a.len() == b.len()) by {
        if a.len() != b.len() {
            assert(a.len() / 3 != b.len() / 3 || a.len() % 3 != b.len() % 3);
        }
    }
    if a.len() == 0 {
        assert(a =~= b);
    } else if a.len() == 1 {
        lemma_b64_char_injective(a[0] as int / 4, b[0] as int / 4);
        assert(t[1] == base64url_text(b)[1]);
        lemma_b64_char_injective((a[0] as int % 4) * 16, (b[0] as int % 4) * 16);
        lemma_group_injective(a[0], 0, 0, b[0], 0, 0);
        assert(a =~= b);
    } else if a.len() == 2 {
        lemma_b64_char_injective(a[0] as int / 4, b[0] as int / 4);
        lemma_b64_char_injective(
            (a[0] as int % 4) * 16 + a[1] as int / 16,
            (b[0] as int % 4) * 16 + b[1] as int / 16,
        );
        lemma_b64_char_injective((a[1] as int % 16) * 4, (b[1] as int % 16) * 4);
        lemma_group_injective(a[0], a[1], 0, b[0], b[1], 0);
        assert(a =~= b);
    } else {
        let ta = base64url_text(a);
        let tb = base64url_text(b);
        assert(ta[0] == tb[0] && ta[1] == tb[1] && ta[2] == tb[2] && ta[3] == tb[3]);
        lemma_b64_char_injective(a[0] as int / 4, b[0] as int / 4);
        lemma_b64_char_injective(
            (a[0] as int % 4) * 16 + a[1] as int / 16,
            (b[0] as int % 4) * 16 + b[1] as int / 16,
        );
        lemma_b64_char_injective(
            (a[1] as int % 16) * 4 + a[2] as int / 64,
            (b[1] as int % 16) * 4 + b[2] as int / 64,
        );
        lemma_b64_char_injective(a[2] as int % 64, b[2] as int % 64);
        lemma_group_injective(a[0], a[1], a[2], b[0], b[1], b[2]);
        assert(base64url_text(a.skip(3)) =~= ta.skip(4));
        assert(base64url_text(b.skip(3)) =~= tb.skip(4));
        law_base64url_injective(a.skip(3), b.skip(3));
        assert(a =~= a.take(3) + a.skip(3));
        assert(b =~= b.take(3) + b.skip(3));
        assert(a.take(3) =~= b.take(3));
    }
}

/// `URL_SAFE_NO_PAD.encode`: URL-safe base64 without padding.
#[verifier::external_body]
fn base64url_encode(data: &[u8]) -> (s: String)
    ensures
        s@ == base64url_text(data@),
{
    base64::engine::general_purpose::URL_SAFE_NO_PAD.encode(data)
}

/// `URL_SAFE_NO_PAD.decode`: the bytes whose canonical encoding is the
/// text (the engine refuses padding and stray trailing bits), or `None`
/// when there are none.
#[verifier::external_body]
fn base64url_decode(text: &str) -> (r: Option<Vec<u8>>)
    ensures
        r matches Some(b) ==> base64url_text(b@) == text@,
        (exists|b: Seq<u8>| base64url_text(b) == text@) ==> r is Some,
{
    base64::engine::general_purpose::URL_SAFE_NO_PAD.decode(text).ok()
}

/// The PKCE S256 challenge of a verifier: the URL-safe base64 of the
/// SHA-256 digest of its UTF-8 bytes.
pub fn pkce_challenge(code_verifier: &str) -> (c: String)
    ensures
        c@ == base64url_text(sha256_of(encode_utf8(code_verifier@))),
{
    let digest = sha256_digest(code_verifier.as_bytes());
    base64url_encode(digest.as_slice())
}

/// Frames the JSON text of the sign-in state as a cookie value: URL-safe
/// base64 of its UTF-8 bytes.
pub fn encode_oauth_cookie(json_text: &str) -> (v: String)
    ensures
        v@ == base64url_text(encode_utf8(json_text@)),
{
    base64url_encode(json_text.as_bytes())
}

/// The bytes framed in a sign-in cookie; a value that is not URL-safe
/// base64 is refused as unauthorized.
pub fn decode_oauth_cookie(value: &str) -> (r: Result<Vec<u8>, ApiError>)
    ensures
        r matches Ok(b) ==> base64url_text(b@) == value@,
        (exists|b: Seq<u8>| base64url_text(b) == value@) <==> r is Ok,
        r is Err ==> fails_with(r, 401, "unauthorized"@),
{
    match base64url_decode(value) {
        Some(b) => Ok(b),
        None => Err(ApiError::unauthorized()),
    }
}

/// The sign-in state survives its cookie: whatever decoding the framed
/// value of a JSON text gives back is the UTF-8 text itself.
pub proof fn law_oauth_cookie_round_trip(json_text: Seq<char>, decoded: Seq<u8>)
    requires
        base64url_text(decoded) == base64url_text(encode_utf8(json_text)),
    ensures
        decoded == encode_utf8(json_text),
{
    law_base64url_injective(decoded, encode_utf8(json_text));
}

// ---------------------------------------------------------------------------
// Cookies
// ---------------------------------------------------------------------------

/// A `Set-Cookie` value: `{name}={value}; Path=/; Max-Age={max_age};
/// HttpOnly; SameSite=Lax`.
pub open spec fn cookie_text(name: Seq<char>, value: Seq<char>, max_age: int) -> Seq<char> {
    name + seq!['='] + value + "; Path=/; Max-Age="@ + int_decimal(max_age)
        + "; HttpOnly; SameSite=Lax"@
}

/// The `Set-Cookie` value that sets a cookie for `max_age_seconds`.
pub fn build_cookie(name: &str, value: &str, max_age_seconds: i64) -> (c: String)
    ensures
        c@ == cookie_text(name@, value@, max_age_seconds as int),
{
    let mut v = chars_of(name);
    v.push('=');
    let val = chars_of(value);
    extend_chars(&mut v, &val);
    let mid = chars_of("; Path=/; Max-Age=");
    extend_chars(&mut v, &mid);
    push_i64_decimal(&mut v, max_age_seconds);
    let tail = chars_of("; HttpOnly; SameSite=Lax");
    extend_chars(&mut v, &tail);
    proof {
        assert(v@ =~= cookie_text(name@, value@, max_age_seconds as int));
    }
    string_from(&v)
}

/// The `Set-Cookie` value that removes a cookie.
pub open spec fn clear_cookie_text(name: Seq<char>) -> Seq<char> {
    name + "=; Path=/; Max-Age=0; HttpOnly; SameSite=Lax"@
}

/// The `Set-Cookie` value that removes the cookie `name`.
pub fn clear_cookie(name: &str) -> (c: String)
    ensures
        c@ == clear_cookie_text(name@),
{
    concat2(name, "=; Path=/; Max-Age=0; HttpOnly; SameSite=Lax")
}

/// Removing a cookie is setting it empty with no lifetime.
pub proof fn law_clear_cookie_is_empty_expired(name: Seq<char>)
    ensures
        clear_cookie_text(name) == cookie_text(name, Seq::empty(), 0),
{
    reveal_strlit("=; Path=/; Max-Age=0; HttpOnly; SameSite=Lax");
    reveal_strlit("; Path=/; Max-Age=");
    reveal_strlit("; HttpOnly; SameSite=Lax");
    assert(int_decimal(0) =~= seq!['0']);
    assert(clear_cookie_text(name) =~= cookie_text(name, Seq::empty(), 0));
}

/// The value of cookie `name` in one `;`-separated piece of a `Cookie`
/// header: the piece, trimmed, splits at its first `=` into the name and
/// a non-empty value.
pub open spec fn cookie_match(piece: Seq<char>, name: Seq<char>) -> Option<Seq<char>> {
    let t = trim(piece);
    if exists|c: int| first_index_of(t, '=', c) {
        let c = choose|c: int| first_index_of(t, '=', c);
        if t.take(c) == name && c + 1 < t.len() {
            Some(t.skip(c + 1))
        } else {
            None
        }
    } else {
        None
    }
}

/// The value of cookie `name` in the first piece that has it.
pub open spec fn first_cookie(pieces: Seq<Seq<char>>, name: Seq<char>) -> Option<Seq<char>>
    decreases pieces.len(),
{
    if pieces.len() == 0 {
        None
    } else if cookie_match(pieces[0], name) is Some {
        cookie_match(pieces[0], name)
    } else {
        first_cookie(pieces.drop_first(), name)
    }
}

/// The value of cookie `name` in a `Cookie` header, if any.
pub open spec fn cookie_value(header: Option<Seq<char>>, name: Seq<char>) -> Option<Seq<char>> {
    match header {
        Some(h) => first_cookie(split_on(h, ';'), name),
        None => None,
    }
}

fn cookie_match_exec(piece: &Vec<char>, name: &Vec<char>) -> (r: Option<String>)
    ensures
        opt_view(r) == cookie_match(piece@, name@),
{
    let (a, b) = trim_bounds(piece);
    let t = sub_chars(piece, a, b);
    match find_first(&t, '=') {
        Some(c) => {
            proof {
                let c2 = choose|c2: int| first_index_of(t@, '=', c2);
                if c2 < c {
                    assert(t@[c2] != '=');
                }
                if c < c2 {
                    assert(t@[c as int] != '=');
                }
            }
            let key = sub_chars(&t, 0, c);
            assert(key@ == t@.take(c as int));
            if chars_eq(&key, name) && c + 1 < t.len() {
                let v = string_of(&t, c + 1, t.len());
                assert(t@.subrange(c + 1, t@.len() as int) == t@.skip(c + 1));
                Some(v)
            } else {
                None
            }
        },
        None => None,
    }
}

/// The value of cookie `name` in a `Cookie` header (its text, when it has
/// one that is readable).
pub fn get_cookie(header: Option<&str>, name: &str) -> (r: Option<String>)
    ensures
        opt_view(r) == cookie_value(
            match header {
                Some(h) => Some(h@),
                None => None,
            },
            name@,
        ),
{
    let h = match header {
        Some(h) => h,
        None => {
            return None;
        },
    };
    let hv = chars_of(h);
    let n = chars_of(name);
    let pieces = split_chars(&hv, ';');
    let ghost all = views(pieces@);
    assert(all.skip(0) == all);
    let mut i: usize = 0;
    while i < pieces.len()
        invariant
            i <= pieces@.len(),
            all == views(pieces@),
            all == split_on(h@, ';'),
            header == Some(h),
            n@ == name@,
            first_cookie(all.skip(i as int), name@) == first_cookie(all, name@),
        decreases pieces@.len() - i,
    {
        assert(all.skip(i as int).len() > 0);
        assert(all.skip(i as int)[0] == pieces@[i as int]@);
        match cookie_match_exec(&pieces[i], &n) {
            Some(v) => {
                assert(first_cookie(all.skip(i as int), name@) == cookie_match(
                    pieces@[i as int]@,
                    name@,
                ));
                return Some(v);
            },
            None => {},
        }
        assert(all.skip(i as int).drop_first() == all.skip(i + 1));
        i = i + 1;
    }
    assert(all.skip(i as int).len() == 0);
    assert(all.skip(0) == all);
    None
}

// ---------------------------------------------------------------------------
// Return paths and origins
// ---------------------------------------------------------------------------

/// A path that is safe to redirect to: it starts with one `/` (not `//`)
/// and holds no control character.
pub open spec fn safe_path(p: Seq<char>) -> bool {
    &&& p.len() > 0
    &&& p[0] == '/'
    &&& !(p.len() > 1 && p[1] == '/')
    &&& forall|i: int| 0 <= i < p.len() ==> !is_control(#[trigger] p[i])
}

/// The path itself when it is safe to redirect to, otherwise `/`.
pub fn safe_return_path(path: &str) -> (r: &str)
    ensures
        r@ == (if safe_path(path@) {
            path@
        } else {
            "/"@
        }),
{
    let v = chars_of(path);
    if v.len() == 0 || v[0] != '/' || (v.len() > 1 && v[1] == '/') {
        return "/";
    }
    let mut i: usize = 0;
    while i < v.len()
        invariant
            i <= v@.len(),
            v@ == path@,
            forall|j: int| 0 <= j < i ==> !is_control(#[trigger] v@[j]),
        decreases v@.len() - i,
    {
        if is_control_exec(v[i]) {
            return "/";
        }
        i = i + 1;
    }
    path
}

/// The headers a request's own origin is read from. Each is `None` when
/// absent; a present header holds its text, or `None` when it is not
/// readable as visible ASCII.
#[derive(Debug)]
pub struct OriginHeaders {
    /// `X-Forwarded-Proto`, when present and readable.
    pub forwarded_proto: Option<String>,
    /// `X-Forwarded-Host`.
    pub forwarded_host: Option<Option<String>>,
    /// `Host`.
    pub host: Option<Option<String>>,
}

/// The origin of the request itself: `{proto}://{host}` with the forwarded
/// protocol (`http` by default) and the forwarded host, or the `Host`
/// header when no host is forwarded.
pub open spec fn request_origin_spec(h: OriginHeaders) -> Result<Seq<char>, Seq<char>> {
    let proto = match h.forwarded_proto {
        Some(p) => p@,
        None => "http"@,
    };
    let host = match h.forwarded_host {
        Some(x) => x,
        None => match h.host {
            Some(y) => y,
            None => None,
        },
    };
    match host {
        Some(x) => Ok(proto + "://"@ + x@),
        None => Err("missing host header"@),
    }
}

/// The origin of the request itself.
pub fn request_origin(headers: &OriginHeaders) -> (r: Result<String, ApiError>)
    ensures
        match request_origin_spec(*headers) {
            Ok(o) => r matches Ok(s) && s@ == o,
            Err(m) => fails_with(r, 400, m),
        },
{
    let host: Option<&String> = match &headers.forwarded_host {
        Some(x) => x.as_ref(),
        None => match &headers.host {
            Some(y) => y.as_ref(),
            None => None,
        },
    };
    let host = match host {
        Some(x) => x,
        None => {
            return Err(ApiError::bad_request("missing host header"));
        },
    };
    match &headers.forwarded_proto {
        Some(p) => Ok(concat3(p.as_str(), "://", host.as_str())),
        None => Ok(concat3("http", "://", host.as_str())),
    }
}

/// The parts of a parsed URL that a return address is made of.
#[derive(Debug)]
pub struct ParsedUrl {
    pub scheme: String,
    pub host: Option<String>,
    pub port: Option<u16>,
    pub path: String,
    pub query: Option<String>,
    pub fragment: Option<String>,
}

/// The parts of a parsed URL as plain values.
pub open spec fn url_view(p: ParsedUrl) -> (
    Seq<char>,
    Option<Seq<char>>,
    Option<u16>,
    Seq<char>,
    Option<Seq<char>>,
    Option<Seq<char>>,
) {
    (p.scheme@, opt_view(p.host), p.port, p.path@, opt_view(p.query), opt_view(p.fragment))
}

/// The name of what `Url::parse` gives for a text: `None` when it is not
/// an absolute URL, otherwise its scheme, host, explicit non-default port,
/// path, query and fragment.
pub uninterp spec fn url_parts_of(s: Seq<char>) -> Option<
    (Seq<char>, Option<Seq<char>>, Option<u16>, Seq<char>, Option<Seq<char>>, Option<Seq<char>>),
>;

/// `Url::parse`, read back through `scheme`, `host_str`, `port`, `path`,
/// `query` and `fragment`.
#[verifier::external_body]
fn parse_url(s: &str) -> (r: Option<ParsedUrl>)
    ensures
        match r {
            Some(p) => url_parts_of(s@) == Some(url_view(p)),
            None => url_parts_of(s@) is None,
        },
{
    match reqwest::Url::parse(s) {
        Ok(u) => Some(ParsedUrl {
            scheme: u.scheme().to_string(),
            host: u.host_str().map(str::to_string),
            port: u.port(),
            path: u.path().to_string(),
            query: u.query().map(str::to_string),
            fragment: u.fragment().map(str::to_string),
        }),
        Err(_) => None,
    }
}

/// The origin of a parsed URL: `{scheme}://{host}` and `:{port}` when a
/// port is given; only `http` and `https` URLs with a host have one.
pub open spec fn url_origin_spec(
    u: (Seq<char>, Option<Seq<char>>, Option<u16>, Seq<char>, Option<Seq<char>>, Option<Seq<char>>),
) -> Result<Seq<char>, Seq<char>> {
    if u.0 != "http"@ && u.0 != "https"@ {
        Err("invalid redirect URL scheme"@)
    } else {
        match u.1 {
            Some(host) => Ok(
                u.0 + "://"@ + host + match u.2 {
                    Some(p) => seq![':'] + nat_decimal(p as nat),
                    None => Seq::empty(),
                },
            ),
            None => Err("invalid redirect URL host"@),
        }
    }
}

/// The origin of a parsed URL.
pub fn url_origin(url: &ParsedUrl) -> (r: Result<String, ApiError>)
    ensures
        match url_origin_spec(url_view(*url)) {
            Ok(o) => r matches Ok(s) && s@ == o,
            Err(m) => fails_with(r, 400, m),
        },
{
    let scheme = chars_of(url.scheme.as_str());
    if !str_eq_chars("http", &scheme) && !str_eq_chars("https", &scheme) {
        return Err(ApiError::bad_request("invalid redirect URL scheme"));
    }
    let host = match &url.host {
        Some(h) => h,
        None => {
            return Err(ApiError::bad_request("invalid redirect URL host"));
        },
    };
    let mut v = scheme;
    let sep = chars_of("://");
    extend_chars(&mut v, &sep);
    let hv = chars_of(host.as_str());
    extend_chars(&mut v, &hv);
    if let Some(p) = url.port {
        v.push(':');
        push_u64_decimal(&mut v, p as u64);
    }
    proof {
        assert(v@ =~= url_origin_spec(url_view(*url))->Ok_0);
    }
    Ok(string_from(&v))
}

/// The part of a URL an app returns to: its path, then `?` and the query
/// and `#` and the fragment when it has them.
pub open spec fn return_to_spec(
    u: (Seq<char>, Option<Seq<char>>, Option<u16>, Seq<char>, Option<Seq<char>>, Option<Seq<char>>),
) -> Seq<char> {
    u.3 + match u.4 {
        Some(q) => seq!['?'] + q,
        None => Seq::empty(),
    } + match u.5 {
        Some(f) => seq!['#'] + f,
        None => Seq::empty(),
    }
}

fn return_to_of(url: &ParsedUrl) -> (s: String)
    ensures
        s@ == return_to_spec(url_view(*url)),
{
    let mut v = chars_of(url.path.as_str());
    if let Some(q) = &url.query {
        v.push('?');
        let qv = chars_of(q.as_str());
        extend_chars(&mut v, &qv);
    }
    if let Some(f) = &url.fragment {
        v.push('#');
        let fv = chars_of(f.as_str());
        extend_chars(&mut v, &fv);
    }
    proof {
        assert(v@ =~= return_to_spec(url_view(*url)));
    }
    string_from(&v)
}

/// `p` when it is a safe return path, otherwise `/`.
pub open spec fn safe_or_root(p: Seq<char>) -> Seq<char> {
    if safe_path(p) {
        p
    } else {
        "/"@
    }
}

/// Where a sign-in returns to, as an origin and a path: an absolute
/// redirect gives its own origin and path; a redirect that is a path
/// (one leading `/`) gives the request's origin and that path; anything
/// else gives the request's origin and `/`. Paths that are not safe
/// become `/`. `parsed` is what parsing the redirect as a URL gave.
pub open spec fn return_target(
    h: OriginHeaders,
    redirect: Option<Seq<char>>,
    parsed: Option<
        (Seq<char>, Option<Seq<char>>, Option<u16>, Seq<char>, Option<Seq<char>>, Option<Seq<char>>),
    >,
) -> Result<(Seq<char>, Seq<char>), Seq<char>> {
    let fallback = match request_origin_spec(h) {
        Ok(o) => Ok((o, "/"@)),
        Err(m) => Err(m),
    };
    match redirect {
        Some(r) => match parsed {
            Some(u) => match url_origin_spec(u) {
                Ok(o) => Ok((o, safe_or_root(return_to_spec(u)))),
                Err(m) => Err(m),
            },
            None => if r.len() > 0 && r[0] == '/' && !(r.len() > 1 && r[1] == '/') {
                match request_origin_spec(h) {
                    Ok(o) => Ok((o, safe_or_root(r))),
                    Err(m) => Err(m),
                }
            } else {
                fallback
            },
        },
        None => fallback,
    }
}

/// Where a sign-in returns to, given what parsing the redirect gave.
pub fn resolve_with_parsed(
    headers: &OriginHeaders,
    redirect: Option<String>,
    parsed: Option<ParsedUrl>,
) -> (r: Result<(String, String), ApiError>)
    ensures
        match return_target(
            *headers,
            opt_view(redirect),
            match parsed {
                Some(p) => Some(url_view(p)),
                None => None,
            },
        ) {
            Ok((o, p)) => r matches Ok((a, b)) && a@ == o && b@ == p,
            Err(m) => fails_with(r, 400, m),
        },
{
    if let Some(red) = &redirect {
        if let Some(u) = &parsed {
            let origin = url_origin(u)?;
            let rt = return_to_of(u);
            let safe = safe_return_path(rt.as_str());
            return Ok((origin, owned(safe)));
        }
        let rv = chars_of(red.as_str());
        if rv.len() > 0 && rv[0] == '/' && !(rv.len() > 1 && rv[1] == '/') {
            let origin = request_origin(headers)?;
            let safe = safe_return_path(red.as_str());
            return Ok((origin, owned(safe)));
        }
    }
    let origin = request_origin(headers)?;
    Ok((origin, owned("/")))
}

/// Where a sign-in returns to: the redirect is parsed as a URL first.
pub fn resolve_app_origin_and_return_to(headers: &OriginHeaders, redirect: Option<String>) -> (r:
    Result<(String, String), ApiError>)
    ensures
        match return_target(
            *headers,
            opt_view(redirect),
            match redirect {
                Some(s) => url_parts_of(s@),
                None => None,
            },
        ) {
            Ok((o, p)) => r matches Ok((a, b)) && a@ == o && b@ == p,
            Err(m) => fails_with(r, 400, m),
        },
{
    let parsed = match &redirect {
        Some(s) => parse_url(s.as_str()),
        None => None,
    };
    resolve_with_parsed(headers, redirect, parsed)
}

/// The callback address of the app at an origin.
pub fn redirect_uri_for(app_origin: &str) -> (s: String)
    ensures
        s@ == app_origin@ + "/api/auth/oauth/callback"@,
{
    concat2(app_origin, "/api/auth/oauth/callback")
}

// ---------------------------------------------------------------------------
// The authorize address
// ---------------------------------------------------------------------------

/// The views of a list of string pairs.
pub open spec fn pair_views(p: Seq<(String, String)>) -> Seq<(Seq<char>, Seq<char>)> {
    p.map_values(|x: (String, String)| (x.0@, x.1@))
}

/// The total length of a list of string pairs, with two for the `=` and
/// the separator of each.
pub open spec fn pairs_len(p: Seq<(Seq<char>, Seq<char>)>) -> nat
    decreases p.len(),
{
    if p.len() == 0 {
        0
    } else {
        pairs_len(p.drop_last()) + p.last().0.len() + p.last().1.len() + 2
    }
}

/// A URL and its query stay within the `u32` offsets `Url` keeps: even
/// with every character percent-encoded (at most twelve bytes each), the
/// text is shorter than 2^32 bytes.
pub open spec fn url_size_ok(base: Seq<char>, pairs: Seq<(Seq<char>, Seq<char>)>) -> bool {
    12 * (base.len() + pairs_len(pairs) + 1) < 0x1_0000_0000
}

/// The name of what `Url::parse(base)` followed by appending the pairs
/// with `query_pairs_mut().extend_pairs(..)` and `to_string()` gives:
/// `None` when `base` does not parse.
pub uninterp spec fn url_with_query_of(base: Seq<char>, pairs: Seq<(Seq<char>, Seq<char>)>) -> Option<
    Seq<char>,
>;

/// `Url::parse(base)`, `query_pairs_mut().extend_pairs(pairs)` and
/// `to_string()`. `Url` keeps `u32` offsets and unwraps their conversion,
/// so inputs whose text could pass 2^32 bytes are left out.
#[verifier::external_body]
fn url_with_query(base: &str, pairs: &Vec<(String, String)>) -> (r: Option<String>)
    requires
        url_size_ok(base@, pair_views(pairs@)),
    ensures
        opt_view(r) == url_with_query_of(base@, pair_views(pairs@)),
{
    let mut url = reqwest::Url::parse(base).ok()?;
    url.query_pairs_mut().extend_pairs(pairs.iter().map(|(k, v)| (k.as_str(), v.as_str())));
    Some(url.to_string())
}

/// The address of the authorize endpoint: `{base}/api/oauth/{realm}/authorize`.
pub open spec fn authorize_base(base_url: Seq<char>, realm_id: Seq<char>) -> Seq<char> {
    base_url + "/api/oauth/"@ + realm_id + "/authorize"@
}

/// The query of an authorization request, in order.
pub open spec fn authorize_pairs(
    client_id: Seq<char>,
    redirect_uri: Seq<char>,
    state: Seq<char>,
    code_challenge: Seq<char>,
) -> Seq<(Seq<char>, Seq<char>)> {
    seq![
        ("client_id"@, client_id),
        ("redirect_uri"@, redirect_uri),
        ("state"@, state),
        ("response_type"@, "code"@),
        ("code_challenge"@, code_challenge),
        ("code_challenge_method"@, "S256"@),
    ]
}

fn pair(k: &str, v: &str) -> (p: (String, String))
    ensures
        p.0@ == k@,
        p.1@ == v@,
{
    (owned(k), owned(v))
}

/// Whether an authorization address is small enough to build (see
/// `url_size_ok`).
pub fn authorize_url_fits(
    herald_base_url: &str,
    realm_id: &str,
    client_id: &str,
    redirect_uri: &str,
    state: &str,
    code_challenge: &str,
) -> (b: bool)
    ensures
        b == url_size_ok(
            authorize_base(herald_base_url@, realm_id@),
            authorize_pairs(client_id@, redirect_uri@, state@, code_challenge@),
        ),
{
    proof {
        reveal_strlit("/api/oauth/");
        reveal_strlit("/authorize");
        reveal_strlit("client_id");
        reveal_strlit("redirect_uri");
        reveal_strlit("state");
        reveal_strlit("response_type");
        reveal_strlit("code");
        reveal_strlit("code_challenge");
        reveal_strlit("code_challenge_method");
        reveal_strlit("S256");
        let p = authorize_pairs(client_id@, redirect_uri@, state@, code_challenge@);
        assert(p.drop_last().drop_last().drop_last().drop_last().drop_last().drop_last().len() == 0);
        assert(pairs_len(p) == 9 + client_id@.len() + 2 + 12 + redirect_uri@.len() + 2 + 5
            + state@.len() + 2 + 13 + 4 + 2 + 14 + code_challenge@.len() + 2 + 21 + 4 + 2) by {
            reveal_with_fuel(pairs_len, 7);
        }
    }
    let lens: u128 = chars_of(herald_base_url).len() as u128 + 11 + chars_of(realm_id).len() as u128
        + 10 + chars_of(client_id).len() as u128 + chars_of(redirect_uri).len() as u128
        + chars_of(state).len() as u128 + chars_of(code_challenge).len() as u128 + (9 + 2 + 12 + 2
        + 5 + 2 + 13 + 4 + 2 + 14 + 2 + 21 + 4 + 2) + 1;
    12 * lens < 0x1_0000_0000
}

/// The address a sign-in sends the browser to.
pub fn build_authorize_url(
    herald_base_url: &str,
    realm_id: &str,
    client_id: &str,
    redirect_uri: &str,
    state: &str,
    code_challenge: &str,
) -> (r: Result<String, ApiError>)
    requires
        url_size_ok(
            authorize_base(herald_base_url@, realm_id@),
            authorize_pairs(client_id@, redirect_uri@, state@, code_challenge@),
        ),
    ensures
        match url_with_query_of(
            authorize_base(herald_base_url@, realm_id@),
            authorize_pairs(client_id@, redirect_uri@, state@, code_challenge@),
        ) {
            Some(u) => r matches Ok(s) && s@ == u,
            None => fails_with(r, 500, "invalid Herald OAuth authorize URL"@),
        },
{
    let mut base = chars_of(herald_base_url);
    let mid = chars_of("/api/oauth/");
    extend_chars(&mut base, &mid);
    let rv = chars_of(realm_id);
    extend_chars(&mut base, &rv);
    let tail = chars_of("/authorize");
    extend_chars(&mut base, &tail);
    let base = string_from(&base);
    let mut pairs: Vec<(String, String)> = Vec::new();
    pairs.push(pair("client_id", client_id));
    pairs.push(pair("redirect_uri", redirect_uri));
    pairs.push(pair("state", state));
    pairs.push(pair("response_type", "code"));
    pairs.push(pair("code_challenge", code_challenge));
    pairs.push(pair("code_challenge_method", "S256"));
    proof {
        assert(base@ =~= authorize_base(herald_base_url@, realm_id@));
        assert(pair_views(pairs@) =~= authorize_pairs(
            client_id@,
            redirect_uri@,
            state@,
            code_challenge@,
        ));
    }
    match url_with_query(base.as_str(), &pairs) {
        Some(u) => Ok(u),
        None => Err(ApiError::internal("invalid Herald OAuth authorize URL")),
    }
}

// ---------------------------------------------------------------------------
// Sign-in responses
// ---------------------------------------------------------------------------

/// A header value `http` accepts: every byte is a tab, or visible ASCII,
/// or above 127.
pub open spec fn header_bytes_ok(b: Seq<u8>) -> bool {
    forall|i: int| 0 <= i < b.len() ==> (b[i] == 9 || (32 <= #[trigger] b[i] && b[i] != 127))
}

/// `HeaderValue::from_str(s).is_ok()`: every byte is a tab, visible ASCII
/// or above 127 (its source checks exactly that).
#[verifier::external_body]
fn header_value_ok(s: &str) -> (b: bool)
    ensures
        b == header_bytes_ok(encode_utf8(s@)),
{
    axum::http::HeaderValue::from_str(s).is_ok()
}

/// Printable ASCII text is a valid header value.
proof fn lemma_printable_header(s: Seq<char>)
    requires
        forall|i: int| 0 <= i < s.len() ==> ' ' <= #[trigger] s[i] && s[i] <= '~',
    ensures
        header_bytes_ok(encode_utf8(s)),
{
    assert(vstd::utf8::is_ascii_chars(s));
    vstd::utf8::is_ascii_chars_encode_utf8(s);
    assert forall|i: int| 0 <= i < encode_utf8(s).len() implies (encode_utf8(s)[i] == 9 || (32
        <= #[trigger] encode_utf8(s)[i] && encode_utf8(s)[i] != 127)) by {
        assert(s[i] as u8 == encode_utf8(s)[i]);
        let c = s[i] as u32;
        assert(32 <= c && c <= 126);
        assert(32 <= (c as u8) && (c as u8) <= 126) by (bit_vector)
            requires
                32 <= c && c <= 126,
        ;
        assert((s[i] as u8) == (c as u8));
    }
}

/// The tokens the identity service issues.
#[derive(Debug)]
pub struct TokenSet {
    pub access_token: String,
    pub refresh_token: String,
    /// Seconds until the access token expires.
    pub expires_in: i64,
    /// Seconds until the refresh token expires.
    pub refresh_expires_in: i64,
}

/// The callback's state must be the one the sign-in started with.
pub fn check_oauth_state(cookie_state: &str, query_state: &str) -> (r: Result<(), ApiError>)
    ensures
        r is Ok <==> cookie_state@ == query_state@,
        r is Err ==> fails_with(r, 401, "unauthorized"@),
{
    let a = chars_of(cookie_state);
    let b = chars_of(query_state);
    if chars_eq(&a, &b) {
        Ok(())
    } else {
        Err(ApiError::unauthorized())
    }
}

fn header_or(value: String, message: &str) -> (r: Result<String, ApiError>)
    ensures
        header_bytes_ok(encode_utf8(value@)) ==> r == Ok::<String, ApiError>(value),
        !header_bytes_ok(encode_utf8(value@)) ==> fails_with(r, 500, message@),
{
    if header_value_ok(value.as_str()) {
        Ok(value)
    } else {
        Err(ApiError::internal(message))
    }
}

/// The two `Set-Cookie` values that store a token set: the access token
/// as `X-Auth` and the refresh token as `X-Auth-Refresh`, each for its
/// lifetime. A value that is not a valid header is a 500.
pub open spec fn token_cookies_outcome(t: TokenSet) -> Result<Seq<Seq<char>>, Seq<char>> {
    let a = cookie_text("X-Auth"@, t.access_token@, t.expires_in as int);
    let b = cookie_text("X-Auth-Refresh"@, t.refresh_token@, t.refresh_expires_in as int);
    if !header_bytes_ok(encode_utf8(a)) {
        Err("invalid auth cookie"@)
    } else if !header_bytes_ok(encode_utf8(b)) {
        Err("invalid refresh cookie"@)
    } else {
        Ok(seq![a, b])
    }
}

/// The `Set-Cookie` values that store a token set, after a refresh.
pub fn token_cookies(tokens: &TokenSet) -> (r: Result<Vec<String>, ApiError>)
    ensures
        match token_cookies_outcome(*tokens) {
            Ok(v) => r matches Ok(c) && c@.map_values(|x: String| x@) == v,
            Err(m) => fails_with(r, 500, m),
        },
{
    let a = header_or(
        build_cookie("X-Auth", tokens.access_token.as_str(), tokens.expires_in),
        "invalid auth cookie",
    )?;
    let b = header_or(
        build_cookie("X-Auth-Refresh", tokens.refresh_token.as_str(), tokens.refresh_expires_in),
        "invalid refresh cookie",
    )?;
    let mut v: Vec<String> = Vec::new();
    v.push(a);
    v.push(b);
    proof {
        assert(v@.map_values(|x: String| x@) =~= token_cookies_outcome(*tokens)->Ok_0);
    }
    Ok(v)
}

/// The headers of a completed sign-in.
#[derive(Debug)]
pub struct CallbackHeaders {
    /// Where the browser returns to.
    pub location: String,
    /// The token cookies, then the removal of the sign-in cookie.
    pub set_cookies: Vec<String>,
}

/// The headers of a completed sign-in: the return path as the location
/// (500 when it is not a valid header), the token cookies, and the
/// removal of the sign-in state cookie.
pub fn callback_headers(return_to: &str, tokens: &TokenSet) -> (r: Result<CallbackHeaders, ApiError>)
    ensures
        !header_bytes_ok(encode_utf8(return_to@)) ==> fails_with(
            r,
            500,
            "invalid OAuth return path"@,
        ),
        header_bytes_ok(encode_utf8(return_to@)) ==> match token_cookies_outcome(*tokens) {
            Ok(v) => r matches Ok(h) && h.location@ == return_to@ && h.set_cookies@.map_values(
                |x: String| x@,
            ) == v.push(clear_cookie_text("RMQTT_OAUTH"@)),
            Err(m) => fails_with(r, 500, m),
        },
{
    let location = header_or(owned(return_to), "invalid OAuth return path")?;
    let mut cookies = token_cookies(tokens)?;
    let clear = clear_cookie("RMQTT_OAUTH");
    proof {
        reveal_strlit("RMQTT_OAUTH");
        reveal_strlit("=; Path=/; Max-Age=0; HttpOnly; SameSite=Lax");
        let t = clear_cookie_text("RMQTT_OAUTH"@);
        assert forall|i: int| 0 <= i < t.len() implies ' ' <= #[trigger] t[i] && t[i] <= '~' by {}
        lemma_printable_header(t);
    }
    let clear = header_or(clear, "invalid OAuth cookie")?;
    let ghost before = cookies@;
    cookies.push(clear);
    proof {
        assert(cookies@.map_values(|x: String| x@) =~= before.map_values(|x: String| x@).push(
            clear_cookie_text("RMQTT_OAUTH"@),
        ));
    }
    Ok(CallbackHeaders { location, set_cookies: cookies })
}

/// The `Set-Cookie` values of a sign-out: both auth cookies removed.
pub fn logout_cookies() -> (v: Vec<String>)
    ensures
        v@.map_values(|x: String| x@) == seq![
            clear_cookie_text("X-Auth"@),
            clear_cookie_text("X-Auth-Refresh"@),
        ],
{
    let mut v: Vec<String> = Vec::new();
    v.push(clear_cookie("X-Auth"));
    v.push(clear_cookie("X-Auth-Refresh"));
    assert(v@.map_values(|x: String| x@) =~= seq![
        clear_cookie_text("X-Auth"@),
        clear_cookie_text("X-Auth-Refresh"@),
    ]);
    v
}

// ---------------------------------------------------------------------------
// Identity service endpoints
// ---------------------------------------------------------------------------

/// The identity service's base URL without its trailing slashes, then
/// `path`.
pub open spec fn service_url(base_url: Seq<char>, path: Seq<char>) -> Seq<char> {
    trim_trailing(base_url, '/') + path
}

fn service_url_of(base_url: &str, path: &Vec<char>) -> (r: String)
    ensures
        r@ == service_url(base_url@, path@),
{
    let b = chars_of(base_url);
    let end = trailing_end(&b, '/');
    let mut v = sub_chars(&b, 0, end);
    extend_chars(&mut v, path);
    string_from(&v)
}

/// Where an authorization code is exchanged for tokens:
/// `{base}/api/oauth/{realm_id}/token`.
pub fn token_url(base_url: &str, realm_id: &str) -> (r: String)
    ensures
        r@ == service_url(base_url@, "/api/oauth/"@ + realm_id@ + "/token"@),
{
    let mut path = chars_of("/api/oauth/");
    let realm = chars_of(realm_id);
    extend_chars(&mut path, &realm);
    let tail = chars_of("/token");
    extend_chars(&mut path, &tail);
    service_url_of(base_url, &path)
}

/// Where a refresh token is exchanged for new tokens:
/// `{base}/api/auth/browser-token/refresh`.
pub fn refresh_url(base_url: &str) -> (r: String)
    ensures
        r@ == service_url(base_url@, "/api/auth/browser-token/refresh"@),
{
    let path = chars_of("/api/auth/browser-token/refresh");
    service_url_of(base_url, &path)
}

/// Where a session is revoked: `{base}/api/auth/logout`.
pub fn logout_url(base_url: &str) -> (r: String)
    ensures
        r@ == service_url(base_url@, "/api/auth/logout"@),
{
    let path = chars_of("/api/auth/logout");
    service_url_of(base_url, &path)
}

/// What the identity service's answer to a token request gives, from its
/// HTTP status (`None` when no answer came): no answer is a 503, a status
/// outside 200..=299 means the code or token was refused (401), and a
/// success lets the tokens be read.
pub fn check_token_reply(status: Option<u16>) -> (r: Result<(), ApiError>)
    ensures
        match status {
            None => fails_with(r, 503, "auth service unavailable"@),
            Some(s) => if 200 <= s <= 299 {
                r is Ok
            } else {
                fails_with(r, 401, "unauthorized"@)
            },
        },
{
    match status {
        None => Err(ApiError::service_unavailable("auth service unavailable")),
        Some(s) => if 200 <= s && s <= 299 {
            Ok(())
        } else {
            Err(ApiError::unauthorized())
        },
    }
}

} // verus!
