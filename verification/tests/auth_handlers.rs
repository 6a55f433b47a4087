use hmac::{Hmac, Mac};
use rand::distr::Alphanumeric;
use rand::Rng;
use rmqtt_things::auth_handlers::acl;
use rmqtt_things::auth_handlers::auth;
use rmqtt_things::auth_handlers::auth_now;
use rmqtt_things::auth_handlers::connection_answer;
use rmqtt_things::auth_handlers::check_device_admission;
use rmqtt_things::auth_handlers::provisioning_answer;
use rmqtt_things::auth_handlers::verify_password;
use rmqtt_things::auth_handlers::Access;
use rmqtt_things::auth_handlers::AclPayload;
use rmqtt_things::auth_handlers::AdmissionStep;
use rmqtt_things::auth_handlers::AuthDecision;
use rmqtt_things::auth_handlers::AuthPayload;
use rmqtt_things::json::JsonValue;
use rmqtt_things::ota_handlers::upgrade_topic;
use sha1::Sha1;
use time::OffsetDateTime;

type HmacSha1 = Hmac<Sha1>;

fn generate_test_password(client_id: &str, suffix: &str) -> (String, i64) {
    let nonce: String = rand::rng().sample_iter(&Alphanumeric).take(6).map(char::from).collect();
    let timestamp = OffsetDateTime::now_utc().unix_timestamp();
    let to_sign = format!("{client_id}.{nonce}.{timestamp}.{suffix}");
    let mut mac = HmacSha1::new_from_slice(suffix.as_bytes()).unwrap();
    mac.update(to_sign.as_bytes());
    let result = mac.finalize();
    let hash = hex::encode(result.into_bytes());
    (format!("{nonce}.{timestamp}.{hash}"), timestamp)
}

#[test]
fn test_generate_password() {
    let client_id = "test_client";
    let suffix = "test_suffix";
    let (password, timestamp) = generate_test_password(client_id, suffix);

    let parts: Vec<&str> = password.split('.').collect();
    assert_eq!(parts.len(), 3);

    let nonce = parts[0];
    let timestamp_str = parts[1];
    let hash = parts[2];

    assert_eq!(nonce.len(), 6);
    assert_eq!(timestamp_str, timestamp.to_string());

    let to_sign = format!("{client_id}.{nonce}.{timestamp}.{suffix}");
    let mut mac = HmacSha1::new_from_slice(suffix.as_bytes()).unwrap();
    mac.update(to_sign.as_bytes());
    let result = mac.finalize();
    let expected_hash = hex::encode(result.into_bytes());

    assert_eq!(hash, expected_hash);
    // The library accepts the password it was generated for.
    assert!(verify_password(client_id, &password, suffix, timestamp, 60));
}

#[test]
fn password_checks() {
    let (password, ts) = generate_test_password("dev-1", "sfx");
    assert!(verify_password("dev-1", &password, "sfx", ts + 30, 30));
    assert!(verify_password("dev-1", &password, "sfx", ts - 30, 30));
    assert!(!verify_password("dev-1", &password, "sfx", ts + 31, 30));
    assert!(!verify_password("dev-2", &password, "sfx", ts, 30));
    assert!(!verify_password("dev-1", &password, "other", ts, 30));
    assert!(!verify_password("dev-1", "", "sfx", ts, 30));
    assert!(!verify_password("dev-1", "abc.1.2.3", "sfx", ts, 30));
    assert!(!verify_password("dev-1", "abcde.1.ff", "sfx", 1, 30));
    let long_client = "c".repeat(65);
    let (p2, ts2) = generate_test_password(&long_client, "sfx");
    assert!(!verify_password(&long_client, &p2, "sfx", ts2, 30));
    // A signature in upper case is not the expected lowercase hex.
    let upper = {
        let parts: Vec<&str> = password.split('.').collect();
        format!("{}.{}.{}", parts[0], parts[1], parts[2].to_uppercase())
    };
    assert!(!verify_password("dev-1", &upper, "sfx", ts, 30));
}

fn auth_payload(username: Option<&str>, password: &str) -> AuthPayload {
    AuthPayload {
        client_id: "dev-1".into(),
        username: username.map(|u| u.to_string()),
        password: password.into(),
        protocol: JsonValue::Number("4".into()),
        ipaddress: "127.0.0.1".into(),
    }
}

#[test]
fn auth_decision_needs_password_and_product() {
    let (password, ts) = generate_test_password("dev-1", "sfx");
    match auth(&auth_payload(Some("prod"), &password), "sfx", ts, 300) {
        AuthDecision::Admit { product_id } => assert_eq!(product_id, "prod"),
        AuthDecision::Deny => panic!("expected admission check"),
    }
    assert!(matches!(auth(&auth_payload(None, &password), "sfx", ts, 300), AuthDecision::Deny));
    assert!(matches!(auth(&auth_payload(Some("prod"), "x.y.z"), "sfx", ts, 300), AuthDecision::Deny));
}

#[test]
fn admission_steps() {
    assert_eq!(check_device_admission(None), AdmissionStep::Deny);
    assert_eq!(check_device_admission(Some((true, None))), AdmissionStep::Allow);
    assert_eq!(check_device_admission(Some((true, Some(false)))), AdmissionStep::Allow);
    assert_eq!(check_device_admission(Some((false, Some(true)))), AdmissionStep::Provision);
    assert_eq!(check_device_admission(Some((false, Some(false)))), AdmissionStep::Deny);
    assert_eq!(check_device_admission(Some((false, None))), AdmissionStep::Deny);
    assert_eq!(provisioning_answer(true), "allow");
    assert_eq!(provisioning_answer(false), "deny");
}

fn acl_payload(access: Access, username: Option<&str>, client_id: &str, topic: &str) -> AclPayload {
    AclPayload {
        access,
        username: username.map(|u| u.to_string()),
        client_id: client_id.to_string(),
        ip: "127.0.0.1".to_string(),
        topic: topic.to_string(),
        protocol: JsonValue::Number("4".to_string()),
    }
}

#[test]
fn test_acl_allows_device_thing_topic_for_own_product() {
    let payload = acl_payload(
        Access::Publish,
        Some("demo_product"),
        "demo-device",
        "demo_product/demo-device/thing/event/property/post",
    );
    assert_eq!(acl(&payload), "allow");
}

#[test]
fn test_acl_denies_cross_device_topic() {
    let payload = acl_payload(
        Access::Publish,
        Some("demo_product"),
        "demo-device",
        "demo_product/other-device/thing/event/property/post",
    );
    assert_eq!(acl(&payload), "deny");
}

#[test]
fn test_acl_allows_ota_upgrade_topic_with_leading_slash() {
    let payload = acl_payload(
        Access::Subscribe,
        Some("demo_product"),
        "demo-e2e-ota-device",
        "/demo_product/demo-e2e-ota-device/ota/upgrade",
    );
    assert_eq!(acl(&payload), "allow");
}

#[test]
fn test_acl_allows_ota_version_topic() {
    let payload =
        acl_payload(Access::Publish, Some("demo_product"), "demo-device", "demo_product/demo-device/ota/version");
    assert_eq!(acl(&payload), "allow");
}

#[test]
fn test_acl_denies_ota_for_wrong_device() {
    let payload = acl_payload(
        Access::Subscribe,
        Some("demo_product"),
        "demo-device",
        "/demo_product/other-device/ota/upgrade",
    );
    assert_eq!(acl(&payload), "deny");
}

#[test]
fn acl_other_cases() {
    // Wrong product for the username.
    let p = acl_payload(Access::Publish, Some("p2"), "d", "p1/d/thing/event");
    assert_eq!(acl(&p), "deny");
    // No username: any product.
    let p = acl_payload(Access::Publish, None, "d", "p1/d/thing/file/upload");
    assert_eq!(acl(&p), "allow");
    // Too few segments.
    let p = acl_payload(Access::Publish, None, "d", "p1/d/thing");
    assert_eq!(acl(&p), "deny");
    // Unknown family.
    let p = acl_payload(Access::Publish, None, "d", "p1/d/thing/other");
    assert_eq!(acl(&p), "deny");
    let p = acl_payload(Access::Publish, None, "d", "p1/d/ota/push");
    assert_eq!(acl(&p), "deny");
    // Only one leading slash is dropped.
    let p = acl_payload(Access::Publish, None, "d", "//p1/d/thing/event");
    assert_eq!(acl(&p), "deny");
    let p = acl_payload(Access::Publish, None, "d", "p1/d/thing/factory-metadata/get");
    assert_eq!(acl(&p), "allow");
}

#[test]
fn upgrade_topic_is_allowed_to_its_device() {
    let topic = upgrade_topic("demo_product", "dev-9");
    assert_eq!(topic, "/demo_product/dev-9/ota/upgrade");
    let p = acl_payload(Access::Subscribe, Some("demo_product"), "dev-9", &topic);
    assert_eq!(acl(&p), "allow");
}

#[test]
fn documented_device_topics_are_allowed() {
    let publish = acl_payload(
        Access::Publish,
        Some("test-1"),
        "mqttx_demo_001",
        "test-1/mqttx_demo_001/thing/event/property/post",
    );
    assert_eq!(acl(&publish), "allow");
    let commands = acl_payload(
        Access::Subscribe,
        Some("test-1"),
        "mqttx_demo_001",
        "test-1/mqttx_demo_001/thing/service/property/set",
    );
    assert_eq!(acl(&commands), "allow");
    let reply = acl_payload(
        Access::Publish,
        Some("test-1"),
        "mqttx_demo_001",
        "test-1/mqttx_demo_001/thing/service/property/set_reply",
    );
    assert_eq!(acl(&reply), "allow");
}

#[test]
fn documented_password_recipe_is_accepted() {
    let device_id = "mqttx_demo_001";
    let suffix = "4f39c2635d373677b95edc460bb99ba4";
    let nonce = "a1b2c3";
    let ts: i64 = 1_767_225_600;
    let mut mac = HmacSha1::new_from_slice(suffix.as_bytes()).unwrap();
    mac.update(format!("{device_id}.{nonce}.{ts}.{suffix}").as_bytes());
    let hash = hex::encode(mac.finalize().into_bytes());
    let password = format!("{nonce}.{ts}.{hash}");
    // Five minutes of skew by default, seven days on the demo server.
    assert!(verify_password(device_id, &password, suffix, ts + 300, 300));
    assert!(!verify_password(device_id, &password, suffix, ts + 301, 300));
    assert!(verify_password(device_id, &password, suffix, ts - 6 * 86_400, 7 * 86_400));
}

#[test]
fn auth_now_reads_the_clock() {
    let (password, _) = generate_test_password("dev-1", "sfx");
    match auth_now(&auth_payload(Some("prod"), &password), "sfx", 300) {
        AuthDecision::Admit { product_id } => assert_eq!(product_id, "prod"),
        AuthDecision::Deny => panic!("a fresh password must be accepted"),
    }
    let stale_ts = OffsetDateTime::now_utc().unix_timestamp() - 10_000;
    let to_sign = format!("dev-1.abcdef.{stale_ts}.sfx");
    let mut mac = HmacSha1::new_from_slice(b"sfx").unwrap();
    mac.update(to_sign.as_bytes());
    let stale = format!("abcdef.{stale_ts}.{}", hex::encode(mac.finalize().into_bytes()));
    assert!(matches!(auth_now(&auth_payload(Some("prod"), &stale), "sfx", 300), AuthDecision::Deny));
}

#[test]
fn connection_answer_composes_password_and_admission() {
    let good = AuthDecision::Admit { product_id: "prod".to_string() };
    assert_eq!(connection_answer(&good, Some((true, None)), false), "allow");
    assert_eq!(connection_answer(&good, Some((false, Some(true))), true), "allow");
    assert_eq!(connection_answer(&good, Some((false, Some(true))), false), "deny");
    assert_eq!(connection_answer(&good, Some((false, Some(false))), true), "deny");
    assert_eq!(connection_answer(&good, Some((false, None)), true), "deny");
    assert_eq!(connection_answer(&good, None, true), "deny");
    assert_eq!(connection_answer(&AuthDecision::Deny, Some((true, None)), true), "deny");
    let (password, _) = generate_test_password("dev-1", "sfx");
    let decision = auth_now(&auth_payload(Some("prod"), &password), "sfx", 300);
    assert_eq!(connection_answer(&decision, Some((true, Some(false))), false), "allow");
}

#[test]
fn short_signature_at_the_edge_of_time_is_denied() {
    let password = "abcdef.-9223372036854775808.00";
    assert!(!verify_password("dev-1", password, "sfx", i64::MIN, 300));
    assert!(!verify_password("dev-1", password, "sfx", i64::MAX, i64::MAX));
    assert!(matches!(auth(&auth_payload(Some("prod"), password), "sfx", i64::MIN, 300), AuthDecision::Deny));
}
