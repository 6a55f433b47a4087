use rmqtt_things::middleware::admin_gate;
use rmqtt_things::middleware::classify_auth_failure;
use rmqtt_things::middleware::client_ip;
use rmqtt_things::middleware::extract_auth_token;
use rmqtt_things::middleware::extract_permission;
use rmqtt_things::middleware::internal_ip_gate;
use rmqtt_things::middleware::is_private_ip;
use rmqtt_things::middleware::permission_outcome;
use rmqtt_things::middleware::AuthFailure;
use rmqtt_things::middleware::HttpMethod;
use rmqtt_things::middleware::IpAddress;
use rmqtt_things::middleware::Rule;
use rmqtt_things::middleware::classify_auth_error;
use rmqtt_things::middleware::HeraldErrorKind;

fn v4(a: u8, b: u8, c: u8, d: u8) -> IpAddress {
    IpAddress::V4(a, b, c, d)
}

fn ip(text: &str) -> IpAddress {
    match text {
        "::1" => IpAddress::V6(0, 0, 0, 0, 0, 0, 0, 1),
        "fc00::1" => IpAddress::V6(0xfc00, 0, 0, 0, 0, 0, 0, 1),
        "fd12:3456::1" => IpAddress::V6(0xfd12, 0x3456, 0, 0, 0, 0, 0, 1),
        "2001:db8::1" => IpAddress::V6(0x2001, 0x0db8, 0, 0, 0, 0, 0, 1),
        _ => {
            let o: Vec<u8> = text.split('.').map(|p| p.parse::<u8>().unwrap()).collect();
            v4(o[0], o[1], o[2], o[3])
        }
    }
}

#[test]
fn auth_extracts_expected_admin_permissions() {
    let cases = [
        ("/api/admin/product", HttpMethod::Get, "product", "read"),
        ("/admin/product", HttpMethod::Get, "product", "read"),
        ("/api/admin/product/1", HttpMethod::Post, "product", "write"),
        ("/admin/product/1", HttpMethod::Post, "product", "write"),
        ("/api/admin/valid/event", HttpMethod::Patch, "product", "write"),
        ("/api/admin/file/upload", HttpMethod::Delete, "product", "write"),
        ("/api/admin/device/status", HttpMethod::Get, "device", "read"),
        ("/api/admin/property/command", HttpMethod::Post, "device", "write"),
        ("/api/admin/event", HttpMethod::Delete, "device", "write"),
        ("/api/admin/ca/cert", HttpMethod::Get, "cert", "read"),
        ("/api/admin/ota/version", HttpMethod::Put, "cert", "write"),
        ("/api/admin/alarm-rule", HttpMethod::Post, "device", "write"),
        ("/api/admin/alarm-rule/1", HttpMethod::Get, "device", "read"),
        ("/api/admin/alarm-rule/1/status", HttpMethod::Patch, "device", "write"),
        ("/api/admin/alarm", HttpMethod::Get, "device", "read"),
        ("/api/admin/alarm/1/ack", HttpMethod::Patch, "device", "write"),
    ];

    for (path, method, resource, action) in cases {
        let rule = extract_permission(path, method).unwrap();
        assert_eq!(rule.resource, resource);
        assert_eq!(rule.action, action);
    }
}

#[test]
fn auth_ignores_unprotected_or_unsupported_paths() {
    assert!(extract_permission("/api/health", HttpMethod::Get).is_none());
    assert!(extract_permission("/api/access/auth", HttpMethod::Post).is_none());
    assert!(extract_permission("/api/thing/property/post", HttpMethod::Post).is_none());
    assert!(extract_permission("/api/device/connect", HttpMethod::Post).is_none());
    assert!(extract_permission("/api/admin/product", HttpMethod::Head).is_none());
}

#[test]
fn private_ip_check_loopback_v4() {
    assert!(is_private_ip(&ip("127.0.0.1")));
    assert!(is_private_ip(&ip("127.255.255.255")));
}

#[test]
fn private_ip_check_class_a() {
    assert!(is_private_ip(&ip("10.0.0.1")));
    assert!(is_private_ip(&ip("10.255.255.255")));
}

#[test]
fn private_ip_check_class_b() {
    assert!(is_private_ip(&ip("172.16.0.1")));
    assert!(is_private_ip(&ip("172.31.255.255")));
    assert!(!is_private_ip(&ip("172.32.0.1")));
}

#[test]
fn private_ip_check_class_c() {
    assert!(is_private_ip(&ip("192.168.0.1")));
    assert!(is_private_ip(&ip("192.168.255.255")));
}

#[test]
fn private_ip_check_loopback_v6() {
    assert!(is_private_ip(&ip("::1")));
}

#[test]
fn private_ip_check_unique_local_v6() {
    assert!(is_private_ip(&ip("fc00::1")));
    assert!(is_private_ip(&ip("fd12:3456::1")));
}

#[test]
fn public_ips_are_not_private() {
    assert!(!is_private_ip(&ip("8.8.8.8")));
    assert!(!is_private_ip(&ip("1.2.3.4")));
    assert!(!is_private_ip(&ip("172.15.0.1")));
    assert!(!is_private_ip(&ip("2001:db8::1")));
}

#[test]
fn internal_ip_allows_localhost_via_x_real_ip() {
    assert!(internal_ip_gate(client_ip(Some(ip("127.0.0.1")), None, None)).is_ok());
}

#[test]
fn internal_ip_allows_10_via_x_real_ip() {
    assert!(internal_ip_gate(client_ip(Some(ip("10.0.0.1")), None, None)).is_ok());
}

#[test]
fn internal_ip_allows_192_168_via_x_forwarded_for() {
    assert!(internal_ip_gate(client_ip(None, Some(ip("192.168.1.100")), None)).is_ok());
}

#[test]
fn internal_ip_allows_172_16_via_x_forwarded_for() {
    assert!(internal_ip_gate(client_ip(None, Some(ip("172.16.5.5")), None)).is_ok());
}

#[test]
fn internal_ip_rejects_public_ip() {
    let e = internal_ip_gate(client_ip(Some(ip("8.8.8.8")), None, None)).unwrap_err();
    let (status, body) = e.into_response();
    assert_eq!(status, 403);
    assert_eq!(body.error, "access denied: internal network only");
}

#[test]
fn internal_ip_rejects_missing_ip() {
    assert_eq!(internal_ip_gate(client_ip(None, None, None)).unwrap_err().status_code(), 403);
}

#[test]
fn internal_ip_allows_connect_info_fallback() {
    assert!(internal_ip_gate(client_ip(None, None, Some(ip("127.0.0.1")))).is_ok());
}

#[test]
fn internal_ip_rejects_public_connect_info() {
    assert_eq!(internal_ip_gate(client_ip(None, None, Some(ip("8.8.8.8")))).unwrap_err().status_code(), 403);
}

#[test]
fn real_ip_takes_precedence() {
    assert_eq!(client_ip(Some(ip("8.8.8.8")), Some(ip("10.0.0.1")), None), Some(ip("8.8.8.8")));
}

#[test]
fn auth_rejects_missing_cookie() {
    let token = extract_auth_token(None);
    let rule = extract_permission("/api/admin/product", HttpMethod::Get);
    assert_eq!(admin_gate(token, rule).unwrap_err().status_code(), 401);
}

#[test]
fn admin_gate_needs_a_permission() {
    let token = extract_auth_token(Some("X-Auth=session-token"));
    assert_eq!(token.as_deref(), Some("session-token"));
    let rule = extract_permission("/api/health", HttpMethod::Get);
    assert_eq!(admin_gate(token, rule).unwrap_err().status_code(), 403);
    let token = extract_auth_token(Some("X-Auth=session-token"));
    let rule = Some(Rule { resource: "product".into(), action: "read".into() });
    let (t, r) = admin_gate(token, rule).unwrap();
    assert_eq!(t, "session-token");
    assert_eq!(r.resource, "product");
}

#[test]
fn auth_allows_request_when_herald_allows_permission() {
    let user = permission_outcome(Ok((true, Some("user-1".to_string())))).unwrap();
    assert_eq!(user.user_id, "user-1");
}

#[test]
fn auth_returns_unauthorized_when_session_not_found() {
    assert_eq!(permission_outcome(Ok((false, None))).unwrap_err().status_code(), 401);
    assert_eq!(permission_outcome(Ok((true, None))).unwrap_err().status_code(), 401);
}

#[test]
fn auth_returns_forbidden_when_user_lacks_permission() {
    assert_eq!(permission_outcome(Ok((false, Some("user-1".to_string())))).unwrap_err().status_code(), 403);
}

#[test]
fn auth_returns_service_unavailable_when_herald_fails() {
    assert_eq!(permission_outcome(Err(AuthFailure::Unavailable)).unwrap_err().status_code(), 503);
    assert_eq!(classify_auth_failure(AuthFailure::Unauthorized).status_code(), 401);
    assert_eq!(classify_auth_failure(AuthFailure::Forbidden).status_code(), 403);
}

#[test]
fn identity_service_errors_are_classified() {
    let answer = |k: HeraldErrorKind| {
        let (status, body) = classify_auth_error(k).into_response();
        (status, body.error)
    };
    assert_eq!(answer(HeraldErrorKind::Unauthorized), (401, "unauthorized".to_string()));
    assert_eq!(answer(HeraldErrorKind::Forbidden), (403, "forbidden".to_string()));
    for k in [
        HeraldErrorKind::Network,
        HeraldErrorKind::Decoding,
        HeraldErrorKind::NotFound,
        HeraldErrorKind::InternalServerError,
        HeraldErrorKind::OtherStatus,
    ] {
        assert_eq!(answer(k), (503, "auth service unavailable".to_string()));
    }
}
