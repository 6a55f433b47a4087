//! Request gates: the permission an admin request needs, the answer of the
//! identity service, and the internal-network check of webhook routes.
use crate::error::fails_with;
use crate::error::ApiError;
use crate::oauth::cookie_value;
use crate::oauth::get_cookie;
use crate::text::chars_of;
use crate::text::opt_view;
use crate::text::owned;
use crate::text::starts_with;
use crate::text::starts_with_exec;
use crate::text::sub_chars;
use vstd::prelude::*;

verus! {

/// The signed-in user of an admin request.
#[derive(Debug)]
pub struct CurrentUser {
    pub user_id: String,
}

/// An HTTP request method.
#[derive(Clone, Copy, Debug, PartialEq, Eq, Structural)]
pub enum HttpMethod {
    Get,
    Post,
    Put,
    Patch,
    Delete,
    Head,
    Options,
    Connect,
    Trace,
    /// Any extension method.
    Other,
}

/// A permission to check with the identity service.
#[derive(Debug)]
pub struct Rule {
    /// `product`, `device` or `cert`.
    pub resource: String,
    /// `read` or `write`.
    pub action: String,
}

/// `p` with one leading `/api` removed.
pub open spec fn strip_api(p: Seq<char>) -> Seq<char> {
    if starts_with(p, "/api"@) {
        p.skip(4)
    } else {
        p
    }
}

/// The resource an admin path belongs to, if it is protected.
pub open spec fn path_resource(path: Seq<char>) -> Option<Seq<char>> {
    let p = strip_api(path);
    if starts_with(p, "/admin/product"@) || starts_with(p, "/admin/valid"@) || starts_with(
        p,
        "/admin/file"@,
    ) {
        Some("product"@)
    } else if starts_with(p, "/admin/device"@) || starts_with(p, "/admin/property"@) || starts_with(
        p,
        "/admin/event"@,
    ) || starts_with(p, "/admin/alarm-rule"@) || starts_with(p, "/admin/alarm"@) {
        Some("device"@)
    } else if starts_with(p, "/admin/ca"@) || starts_with(p, "/admin/ota"@) {
        Some("cert"@)
    } else {
        None
    }
}

/// The action a method performs: `GET` reads; `POST`, `PUT`, `PATCH` and
/// `DELETE` write; any other method has none.
pub open spec fn method_action(m: HttpMethod) -> Option<Seq<char>> {
    match m {
        HttpMethod::Get => Some("read"@),
        HttpMethod::Post | HttpMethod::Put | HttpMethod::Patch | HttpMethod::Delete => Some(
            "write"@,
        ),
        _ => None,
    }
}

fn starts(v: &Vec<char>, p: &str) -> (b: bool)
    ensures
        b == starts_with(v@, p@),
{
    let pv = chars_of(p);
    starts_with_exec(v, &pv)
}

/// The permission a request needs: the resource of its path and the
/// action of its method, or `None` when the path is not protected or the
/// method has no action.
pub fn extract_permission(path: &str, method: HttpMethod) -> (r: Option<Rule>)
    ensures
        match r {
            Some(rule) => path_resource(path@) == Some(rule.resource@) && method_action(method)
                == Some(rule.action@),
            None => path_resource(path@) is None || method_action(method) is None,
        },
{
    let whole = chars_of(path);
    proof {
        reveal_strlit("/api");
    }
    let p = if starts(&whole, "/api") {
        sub_chars(&whole, 4, whole.len())
    } else {
        whole
    };
    proof {
        assert(starts_with(path@, "/api"@) ==> path@.subrange(4, path@.len() as int) == path@.skip(
            4,
        ));
    }
    let resource = if starts(&p, "/admin/product") || starts(&p, "/admin/valid") || starts(
        &p,
        "/admin/file",
    ) {
        "product"
    } else if starts(&p, "/admin/device") || starts(&p, "/admin/property") || starts(
        &p,
        "/admin/event",
    ) || starts(&p, "/admin/alarm-rule") || starts(&p, "/admin/alarm") {
        "device"
    } else if starts(&p, "/admin/ca") || starts(&p, "/admin/ota") {
        "cert"
    } else {
        return None;
    };
    let action = match method {
        HttpMethod::Get => "read",
        HttpMethod::Post | HttpMethod::Put | HttpMethod::Patch | HttpMethod::Delete => "write",
        _ => {
            return None;
        },
    };
    Some(Rule { resource: owned(resource), action: owned(action) })
}

/// How a failed call to the identity service failed.
#[derive(Clone, Copy, Debug, PartialEq, Eq, Structural)]
pub enum AuthFailure {
    /// The service answered 401.
    Unauthorized,
    /// The service answered 403.
    Forbidden,
    /// Any other failure: network, decoding, or another status.
    Unavailable,
}

/// The kinds of error the identity service's client reports, one for each
/// variant of `herald_sdk::Error`.
#[derive(Clone, Copy, Debug, PartialEq, Eq, Structural)]
pub enum HeraldErrorKind {
    /// The request could not be sent or answered (`Reqwest`).
    Network,
    /// The answer could not be decoded (`SerdeJson`).
    Decoding,
    /// The service answered 401 (`Unauthorized`).
    Unauthorized,
    /// The service answered 403 (`Forbidden`).
    Forbidden,
    /// The service answered 404 (`NotFound`).
    NotFound,
    /// The service answered 500 (`InternalServerError`).
    InternalServerError,
    /// The service answered another status (`ApiError`).
    OtherStatus,
}

/// The failure kind of a client error: 401 and 403 keep their meaning;
/// every other error means the service is unavailable.
pub open spec fn failure_of_spec(kind: HeraldErrorKind) -> AuthFailure {
    match kind {
        HeraldErrorKind::Unauthorized => AuthFailure::Unauthorized,
        HeraldErrorKind::Forbidden => AuthFailure::Forbidden,
        _ => AuthFailure::Unavailable,
    }
}

/// The failure kind of a client error.
pub fn failure_of(kind: HeraldErrorKind) -> (f: AuthFailure)
    ensures
        f == failure_of_spec(kind),
{
    match kind {
        HeraldErrorKind::Unauthorized => AuthFailure::Unauthorized,
        HeraldErrorKind::Forbidden => AuthFailure::Forbidden,
        HeraldErrorKind::Network | HeraldErrorKind::Decoding | HeraldErrorKind::NotFound
        | HeraldErrorKind::InternalServerError | HeraldErrorKind::OtherStatus => {
            AuthFailure::Unavailable
        },
    }
}

/// The response to a failure of the identity service.
pub open spec fn failure_response(f: AuthFailure, e: ApiError) -> bool {
    match f {
        AuthFailure::Unauthorized => e.is(401, "unauthorized"@),
        AuthFailure::Forbidden => e.is(403, "forbidden"@),
        AuthFailure::Unavailable => e.is(503, "auth service unavailable"@),
    }
}

/// The response to a failure of the identity service, by kind.
pub fn classify_auth_failure(f: AuthFailure) -> (e: ApiError)
    ensures
        failure_response(f, e),
{
    match f {
        AuthFailure::Unauthorized => ApiError::unauthorized(),
        AuthFailure::Forbidden => ApiError::forbidden(),
        AuthFailure::Unavailable => ApiError::service_unavailable("auth service unavailable"),
    }
}

/// The response to an error of the identity service's client: 401 for
/// `Unauthorized`, 403 for `Forbidden`, and 503 for every other error.
pub fn classify_auth_error(kind: HeraldErrorKind) -> (e: ApiError)
    ensures
        kind == HeraldErrorKind::Unauthorized ==> e.is(401, "unauthorized"@),
        kind == HeraldErrorKind::Forbidden ==> e.is(403, "forbidden"@),
        kind != HeraldErrorKind::Unauthorized && kind != HeraldErrorKind::Forbidden ==> e.is(
            503,
            "auth service unavailable"@,
        ),
{
    classify_auth_failure(failure_of(kind))
}

/// The admin session token: the non-empty `X-Auth` cookie.
pub fn extract_auth_token(cookie_header: Option<&str>) -> (r: Option<String>)
    ensures
        opt_view(r) == cookie_value(
            match cookie_header {
                Some(h) => Some(h@),
                None => None,
            },
            "X-Auth"@,
        ),
{
    get_cookie(cookie_header, "X-Auth")
}

/// What the admin gate does before asking the identity service: no
/// session token is 401, and a request without a permission is 403.
pub fn admin_gate(token: Option<String>, rule: Option<Rule>) -> (r: Result<(String, Rule), ApiError>)
    ensures
        token is None ==> fails_with(r, 401, "unauthorized"@),
        token is Some && rule is None ==> fails_with(r, 403, "forbidden"@),
        token is Some && rule is Some ==> r == Ok::<(String, Rule), ApiError>(
            (token->0, rule->0),
        ),
{
    let t = match token {
        Some(t) => t,
        None => {
            return Err(ApiError::unauthorized());
        },
    };
    match rule {
        Some(rule) => Ok((t, rule)),
        None => Err(ApiError::forbidden()),
    }
}

/// What the identity service's answer means: an allowed request with a
/// user goes through as that user; an allowed request without a user, or
/// a refused one without a user (no session), is 401; a refused request
/// with a user is 403; a failed call is classified by its kind.
pub fn permission_outcome(answer: Result<(bool, Option<String>), AuthFailure>) -> (r: Result<
    CurrentUser,
    ApiError,
>)
    ensures
        match answer {
            Ok((true, Some(u))) => r matches Ok(c) && c.user_id == u,
            Ok((_, None)) => fails_with(r, 401, "unauthorized"@),
            Ok((false, Some(_))) => fails_with(r, 403, "forbidden"@),
            Err(f) => r matches Err(e) && failure_response(f, e),
        },
{
    match answer {
        Ok((allowed, user)) => match user {
            Some(u) => if allowed {
                Ok(CurrentUser { user_id: u })
            } else {
                Err(ApiError::forbidden())
            },
            None => Err(ApiError::unauthorized()),
        },
        Err(f) => Err(classify_auth_failure(f)),
    }
}

// ---------------------------------------------------------------------------
// Internal network
// ---------------------------------------------------------------------------

/// An IP address.
#[derive(Clone, Copy, Debug, PartialEq, Eq, Structural)]
pub enum IpAddress {
    V4(u8, u8, u8, u8),
    V6(u16, u16, u16, u16, u16, u16, u16, u16),
}

/// A private or reserved address: 127.0.0.0/8, 10.0.0.0/8, 172.16.0.0/12,
/// 192.168.0.0/16, `::1` and fc00::/7.
pub open spec fn private_address(ip: IpAddress) -> bool {
    match ip {
        IpAddress::V4(a, b, _, _) => a == 127 || a == 10 || (a == 172 && 16 <= b < 32) || (a == 192
            && b == 168),
        IpAddress::V6(s0, s1, s2, s3, s4, s5, s6, s7) => (s0 == 0 && s1 == 0 && s2 == 0 && s3 == 0
            && s4 == 0 && s5 == 0 && s6 == 0 && s7 == 1) || (0xfc00 <= s0 <= 0xfdff),
    }
}

/// Whether an address is private or reserved.
pub fn is_private_ip(ip: &IpAddress) -> (b: bool)
    ensures
        b == private_address(*ip),
{
    match *ip {
        IpAddress::V4(a, b, _, _) => {
            assert((b & 0xf0) == 16 <==> 16 <= b < 32) by (bit_vector);
            a == 127 || a == 10 || (a == 172 && (b & 0xf0) == 16) || (a == 192 && b == 168)
        },
        IpAddress::V6(s0, s1, s2, s3, s4, s5, s6, s7) => {
            assert((s0 & 0xfe00) == 0xfc00 <==> 0xfc00 <= s0 <= 0xfdff) by (bit_vector);
            (s0 == 0 && s1 == 0 && s2 == 0 && s3 == 0 && s4 == 0 && s5 == 0 && s6 == 0 && s7 == 1)
                || (s0 & 0xfe00) == 0xfc00
        },
    }
}

/// The client address of a webhook request: `X-Real-IP`, else the first
/// entry of `X-Forwarded-For`, else the connection's peer (each `None`
/// when absent or not an address).
pub fn client_ip(
    real_ip: Option<IpAddress>,
    forwarded_for: Option<IpAddress>,
    peer: Option<IpAddress>,
) -> (r: Option<IpAddress>)
    ensures
        r == (if real_ip is Some {
            real_ip
        } else if forwarded_for is Some {
            forwarded_for
        } else {
            peer
        }),
{
    if real_ip.is_some() {
        real_ip
    } else if forwarded_for.is_some() {
        forwarded_for
    } else {
        peer
    }
}

/// Webhook routes serve private addresses only; any other request, or one
/// whose address is unknown, is 403.
pub fn internal_ip_gate(ip: Option<IpAddress>) -> (r: Result<(), ApiError>)
    ensures
        r is Ok <==> (ip matches Some(a) && private_address(a)),
        r is Err ==> fails_with(r, 403, "access denied: internal network only"@),
{
    match ip {
        Some(a) => if is_private_ip(&a) {
            Ok(())
        } else {
            Err(ApiError::forbidden_with("access denied: internal network only"))
        },
        None => Err(ApiError::forbidden_with("access denied: internal network only")),
    }
}

// ---------------------------------------------------------------------------
// Laws of admin permissions and private addresses
// ---------------------------------------------------------------------------

/// A text cannot begin with two prefixes that differ at a position both
/// reach.
proof fn lemma_prefix_clash(s: Seq<char>, a: Seq<char>, b: Seq<char>, i: int)
    requires
        0 <= i < a.len(),
        i < b.len(),
        a[i] != b[i],
    ensures
        !(starts_with(s, a) && starts_with(s, b)),
{
    if starts_with(s, a) && starts_with(s, b) {
        assert(s.take(a.len() as int)[i] == s[i]);
        assert(s.take(b.len() as int)[i] == s[i]);
    }
}

proof fn lemma_admin_prefixes()
    ensures
        "/admin/product"@.len() == 14 && "/admin/product"@[7] == 'p' && "/admin/product"@[10] == 'd',
        "/admin/valid"@.len() == 12 && "/admin/valid"@[7] == 'v',
        "/admin/file"@.len() == 11 && "/admin/file"@[7] == 'f',
        "/admin/device"@.len() == 13 && "/admin/device"@[7] == 'd',
        "/admin/property"@.len() == 15 && "/admin/property"@[7] == 'p' && "/admin/property"@[10] == 'p',
        "/admin/event"@.len() == 12 && "/admin/event"@[7] == 'e',
        "/admin/alarm"@.len() == 12 && "/admin/alarm"@[7] == 'a',
        "/admin/alarm-rule"@.len() == 17 && "/admin/alarm-rule"@[7] == 'a',
        "/admin/ca"@.len() == 9 && "/admin/ca"@[7] == 'c',
        "/admin/ota"@.len() == 10 && "/admin/ota"@[7] == 'o',
{
    reveal_strlit("/admin/product");
    reveal_strlit("/admin/valid");
    reveal_strlit("/admin/file");
    reveal_strlit("/admin/device");
    reveal_strlit("/admin/property");
    reveal_strlit("/admin/event");
    reveal_strlit("/admin/alarm");
    reveal_strlit("/admin/alarm-rule");
    reveal_strlit("/admin/ca");
    reveal_strlit("/admin/ota");
}

/// A path under no product prefix (`/admin/product`, `/admin/valid`,
/// `/admin/file`) when it begins with `q`, whose eighth character is `c`.
proof fn lemma_not_product(p: Seq<char>, q: Seq<char>)
    requires
        starts_with(p, q),
        q.len() > 7,
        q[7] != 'v' && q[7] != 'f',
        q[7] != 'p' || (q.len() > 10 && q[10] != 'd'),
    ensures
        !starts_with(p, "/admin/product"@),
        !starts_with(p, "/admin/valid"@),
        !starts_with(p, "/admin/file"@),
{
    lemma_admin_prefixes();
    if q[7] != 'p' {
        lemma_prefix_clash(p, q, "/admin/product"@, 7);
    } else {
        lemma_prefix_clash(p, q, "/admin/product"@, 10);
    }
    lemma_prefix_clash(p, q, "/admin/valid"@, 7);
    lemma_prefix_clash(p, q, "/admin/file"@, 7);
}

/// Device administration needs the `device` permission: every path that,
/// without its `/api` prefix, begins with `/admin/device`,
/// `/admin/property`, `/admin/event` or `/admin/alarm` (alarm rules
/// included) maps to the `device` resource.
pub proof fn law_device_paths_need_device(path: Seq<char>)
    requires
        starts_with(strip_api(path), "/admin/device"@) || starts_with(
            strip_api(path),
            "/admin/property"@,
        ) || starts_with(strip_api(path), "/admin/event"@) || starts_with(
            strip_api(path),
            "/admin/alarm"@,
        ),
    ensures
        path_resource(path) == Some("device"@),
{
    lemma_admin_prefixes();
    let p = strip_api(path);
    if starts_with(p, "/admin/device"@) {
        lemma_not_product(p, "/admin/device"@);
    } else if starts_with(p, "/admin/property"@) {
        lemma_not_product(p, "/admin/property"@);
    } else if starts_with(p, "/admin/event"@) {
        lemma_not_product(p, "/admin/event"@);
    } else {
        lemma_not_product(p, "/admin/alarm"@);
    }
}

/// Product administration needs the `product` permission: paths under
/// `/admin/product`, `/admin/valid` and `/admin/file`.
pub proof fn law_product_paths_need_product(path: Seq<char>)
    requires
        starts_with(strip_api(path), "/admin/product"@) || starts_with(
            strip_api(path),
            "/admin/valid"@,
        ) || starts_with(strip_api(path), "/admin/file"@),
    ensures
        path_resource(path) == Some("product"@),
{
}

/// Certificates and firmware need the `cert` permission: paths under
/// `/admin/ca` and `/admin/ota`.
pub proof fn law_cert_paths_need_cert(path: Seq<char>)
    requires
        starts_with(strip_api(path), "/admin/ca"@) || starts_with(strip_api(path), "/admin/ota"@),
    ensures
        path_resource(path) == Some("cert"@),
{
    lemma_admin_prefixes();
    let p = strip_api(path);
    let q = if starts_with(p, "/admin/ca"@) {
        "/admin/ca"@
    } else {
        "/admin/ota"@
    };
    lemma_not_product(p, q);
    lemma_prefix_clash(p, q, "/admin/device"@, 7);
    lemma_prefix_clash(p, q, "/admin/property"@, 7);
    lemma_prefix_clash(p, q, "/admin/event"@, 7);
    lemma_prefix_clash(p, q, "/admin/alarm-rule"@, 7);
    lemma_prefix_clash(p, q, "/admin/alarm"@, 7);
}

/// The private IPv4 ranges: every address in 10.0.0.0/8, 127.0.0.0/8,
/// 172.16.0.0/12 (second octet 16 to 31) and 192.168.0.0/16 is private,
/// and no other IPv4 address is.
pub proof fn law_private_ipv4_ranges(a: u8, b: u8, c: u8, d: u8)
    ensures
        a == 10 ==> private_address(IpAddress::V4(a, b, c, d)),
        a == 127 ==> private_address(IpAddress::V4(a, b, c, d)),
        (a == 172 && 16 <= b && b <= 31) ==> private_address(IpAddress::V4(a, b, c, d)),
        (a == 192 && b == 168) ==> private_address(IpAddress::V4(a, b, c, d)),
        private_address(IpAddress::V4(a, b, c, d)) ==> (a == 10 || a == 127 || (a == 172 && 16
            <= b && b <= 31) || (a == 192 && b == 168)),
{
}

/// Every address of 172.16.0.0/12 is private, and its neighbours
/// 172.15.x.x and 172.32.x.x are not.
pub proof fn law_private_range_172(b: u8, c: u8, d: u8)
    requires
        16 <= b && b < 32,
    ensures
        private_address(IpAddress::V4(172, b, c, d)),
        !private_address(IpAddress::V4(172, 15, c, d)),
        !private_address(IpAddress::V4(172, 32, c, d)),
{
}

} // verus!
