use rmqtt_things::handlers::check_report_params;
use rmqtt_things::handlers::event_report_start;
use rmqtt_things::handlers::file_upload_step;
use rmqtt_things::handlers::property_report_start;
use rmqtt_things::handlers::report_checked;
use rmqtt_things::handlers::service_reply_target;
use rmqtt_things::handlers::version_report_start;
use rmqtt_things::handlers::unsupported_upload_reply;
use rmqtt_things::handlers::EventStep;
use rmqtt_things::handlers::ReportStep;
use rmqtt_things::handlers::check_schema_outcome;
use rmqtt_things::handlers::check_schema_violations;
use rmqtt_things::handlers::validate_report;
use rmqtt_things::handlers::check_subscription;
use rmqtt_things::handlers::is_file_upload_directory_allowed;
use rmqtt_things::handlers::object_key_with_prefix;
use rmqtt_things::handlers::parse_service_reply;
use rmqtt_things::handlers::resolve_device_identity;
use rmqtt_things::handlers::routes_to_property;
use rmqtt_things::handlers::subscribe_topic_matches_client;
use rmqtt_things::handlers::upload_object_key;
use rmqtt_things::handlers::ReplyTarget;
use rmqtt_things::handlers::ReportKind;
use rmqtt_things::admin_models::CommandStatus;
use rmqtt_things::json::JsonValue;

#[test]
fn file_upload_directory_wildcard_allows_base_and_children() {
    let rules = vec!["${productId}/${deviceId}/*".to_string(), "public/*".to_string()];

    assert!(is_file_upload_directory_allowed(&rules, "demo_product", "device-a", "demo_product/device-a"));
    assert!(is_file_upload_directory_allowed(&rules, "demo_product", "device-a", "demo_product/device-a/logs"));
    assert!(is_file_upload_directory_allowed(&rules, "demo_product", "device-a", "public"));
    assert!(is_file_upload_directory_allowed(&rules, "demo_product", "device-a", "public/logs"));
}

#[test]
fn file_upload_directory_wildcard_denies_prefix_only_matches() {
    let rules = vec!["${productId}/${deviceId}/*".to_string()];

    assert!(!is_file_upload_directory_allowed(&rules, "demo_product", "device-a", "demo_product/device-ab"));
    assert!(!is_file_upload_directory_allowed(&rules, "demo_product", "device-a", "demo_product/device-b"));
}

#[test]
fn file_upload_directory_admin_static_rule_uses_segment_boundary() {
    let rules = vec!["ota/*".to_string(), "firmware".to_string()];

    assert!(is_file_upload_directory_allowed(&rules, "", "", "ota"));
    assert!(is_file_upload_directory_allowed(&rules, "", "", "ota/v1"));
    assert!(is_file_upload_directory_allowed(&rules, "", "", "ota/v1/bin"));
    assert!(is_file_upload_directory_allowed(&rules, "", "", "firmware"));
    assert!(!is_file_upload_directory_allowed(&rules, "", "", "ota-other"));
    assert!(!is_file_upload_directory_allowed(&rules, "", "", "public"));
}

#[test]
fn file_upload_directory_prefix_rule() {
    let rules = vec!["logs*".to_string()];
    assert!(is_file_upload_directory_allowed(&rules, "", "", "logs-2024"));
    assert!(!is_file_upload_directory_allowed(&rules, "", "", "log"));
    assert!(!is_file_upload_directory_allowed(&[], "", "", "anything"));
}

#[test]
fn device_identity_is_completed_from_the_connection() {
    let mut p = String::new();
    let mut d = String::new();
    assert!(resolve_device_identity(&mut p, &mut d, "prod-1", Some("dev-1")).is_ok());
    assert_eq!((p.as_str(), d.as_str()), ("prod-1", "dev-1"));

    let mut p = "given".to_string();
    let mut d = String::new();
    let e = resolve_device_identity(&mut p, &mut d, "other", None).unwrap_err();
    assert_eq!(p, "given");
    assert_eq!(e.into_response().1.error, "Invalid device identity");

    let mut p = "bad id".to_string();
    let mut d = "dev".to_string();
    let e = resolve_device_identity(&mut p, &mut d, "", None).unwrap_err();
    assert_eq!(
        e.into_response().1.error,
        "product_id contains invalid character. Only alphanumeric, '-' and '_' are allowed"
    );
}

#[test]
fn service_replies_are_read() {
    let r = parse_service_reply(204, "property:42").unwrap();
    assert_eq!(r.target, ReplyTarget::Property);
    assert_eq!(r.db_id, 42);
    assert_eq!(r.status, CommandStatus::Success);
    let r = parse_service_reply(500, "action:-7").unwrap();
    assert_eq!(r.target, ReplyTarget::Action);
    assert_eq!(r.db_id, -7);
    assert_eq!(r.status, CommandStatus::Failed);
    let r = parse_service_reply(299, "other:1:2");
    assert!(r.is_err());
    let r = parse_service_reply(200, "other:+9").unwrap();
    assert_eq!(r.target, ReplyTarget::Unknown);
    assert_eq!(r.db_id, 9);
    assert_eq!(parse_service_reply(200, "noid").unwrap_err().into_response().1.error, "Invalid id format");
    assert_eq!(parse_service_reply(199, "property:1").unwrap().status, CommandStatus::Failed);
    assert_eq!(parse_service_reply(300, "property:1").unwrap().status, CommandStatus::Failed);
}

#[test]
fn subscriptions_are_checked() {
    assert!(subscribe_topic_matches_client("+/dev-1/thing/service/+/set", "dev-1"));
    assert!(subscribe_topic_matches_client("/+/dev-1/thing", "dev-1"));
    assert!(!subscribe_topic_matches_client("+/dev-2/thing", "dev-1"));
    assert!(!subscribe_topic_matches_client("dev-1", "dev-1"));
    assert_eq!(check_subscription("dev-1", Some("prod"), Some("+/dev-1/thing/service/+/set")).unwrap(), "prod");
    assert_eq!(
        check_subscription("dev-1", Some("prod"), Some("+/dev-2/x")).unwrap_err().into_response().1.error,
        "Topic does not match clientId"
    );
    assert_eq!(
        check_subscription("dev-1", None, None).unwrap_err().into_response().1.error,
        "product_id must not be empty"
    );
}

#[test]
fn report_checks() {
    let obj = JsonValue::Object(vec![]);
    assert!(check_report_params(Some(&obj)).is_ok());
    assert_eq!(check_report_params(None).unwrap_err().into_response().1.error, "Invalid params format");
    assert!(check_report_params(Some(&JsonValue::Array(vec![]))).is_err());
    assert!(check_schema_violations(ReportKind::Property, 0).is_ok());
    assert_eq!(
        check_schema_violations(ReportKind::Event, 2).unwrap_err().into_response().1.error,
        "Event validation failed"
    );
    assert!(routes_to_property(Some("property")));
    assert!(!routes_to_property(Some("alarm")));
    assert!(!routes_to_property(None));
}

#[test]
fn upload_object_keys() {
    assert_eq!(object_key_with_prefix("logs", "a.txt", true, "u"), "logs/a.txt");
    assert_eq!(object_key_with_prefix("logs", "a.txt", false, "u"), "logs/u_a.txt");
    let k = upload_object_key("logs", "a.txt", false);
    assert!(k.starts_with("logs/") && k.ends_with("_a.txt"));
    assert_eq!(k.len(), "logs/".len() + 36 + "_a.txt".len());
    let k2 = upload_object_key("logs", "a.txt", false);
    assert_ne!(k, k2);
}

fn obj(members: Vec<(&str, JsonValue)>) -> JsonValue {
    JsonValue::Object(members.into_iter().map(|(k, v)| (k.to_string(), v)).collect())
}

fn text(s: &str) -> JsonValue {
    JsonValue::String(s.to_string())
}

fn number_schema() -> JsonValue {
    obj(vec![
        ("type", text("object")),
        ("properties", obj(vec![("temperature", obj(vec![("type", text("number"))]))])),
    ])
}

fn refusal(r: Result<(), rmqtt_things::error::ApiError>) -> (u16, String) {
    let e = r.unwrap_err();
    let (status, body) = e.into_response();
    (status, body.error)
}

#[test]
fn schema_outcome_by_error_count() {
    assert!(check_schema_outcome(ReportKind::Property, Some(0)).is_ok());
    assert_eq!(
        refusal(check_schema_outcome(ReportKind::Event, Some(3))),
        (400, "Event validation failed".to_string())
    );
    assert_eq!(
        refusal(check_schema_outcome(ReportKind::Property, None)),
        (500, "Schema compilation failed".to_string())
    );
}

#[test]
fn reports_are_checked_against_their_schema() {
    let schema = number_schema();
    let good = obj(vec![("temperature", JsonValue::Number("21.5".to_string()))]);
    let bad = obj(vec![("temperature", text("warm"))]);
    assert!(validate_report(ReportKind::Property, Some(&schema), &good).is_ok());
    assert_eq!(
        refusal(validate_report(ReportKind::Property, Some(&schema), &bad)),
        (400, "Property validation failed".to_string())
    );
    assert_eq!(
        refusal(validate_report(ReportKind::Event, Some(&schema), &bad)),
        (400, "Event validation failed".to_string())
    );
}

#[test]
fn reports_without_schema_are_accepted() {
    let bad = obj(vec![("temperature", text("warm"))]);
    assert!(validate_report(ReportKind::Property, None, &bad).is_ok());
}

#[test]
fn report_against_broken_schema_is_a_server_error() {
    let broken = obj(vec![("type", JsonValue::Number("5".to_string()))]);
    let report = obj(vec![]);
    assert_eq!(
        refusal(validate_report(ReportKind::Property, Some(&broken), &report)),
        (500, "Schema compilation failed".to_string())
    );
}

#[test]
fn upload_key_prefix_is_a_random_uuid() {
    let k = upload_object_key("logs", "a.txt", false);
    let u: Vec<char> = k["logs/".len().."logs/".len() + 36].chars().collect();
    for (i, c) in u.iter().enumerate() {
        if [8, 13, 18, 23].contains(&i) {
            assert_eq!(*c, '-');
        } else {
            assert!(c.is_ascii_digit() || ('a'..='f').contains(c), "{k}");
        }
    }
    assert_eq!(u[14], '4');
    assert!(['8', '9', 'a', 'b'].contains(&u[19]));
    assert_eq!(upload_object_key("logs", "a.txt", true), "logs/a.txt");
}

fn err_text(e: rmqtt_things::error::ApiError) -> (u16, String) {
    let (status, body) = e.into_response();
    (status, body.error)
}

#[test]
fn property_report_steps_in_order() {
    let params = obj(vec![("temperature", JsonValue::Number("21".into()))]);
    let product = || -> Result<String, rmqtt_things::error::ApiError> { Ok("prod".to_string()) };
    assert!(matches!(
        property_report_start("dev-1", Some(&params), true, product()),
        Ok(ReportStep::LoadSchema { ref product_id }) if product_id == "prod"
    ));
    assert!(matches!(
        property_report_start("dev-1", Some(&params), false, product()),
        Ok(ReportStep::Store { ref product_id }) if product_id == "prod"
    ));
    let bad_topic = Err(rmqtt_things::error::ApiError::bad_request("Invalid topic"));
    assert_eq!(
        err_text(property_report_start("bad id", Some(&text("x")), true, bad_topic).unwrap_err()).0,
        400
    );
    assert_eq!(
        err_text(property_report_start("dev-1", Some(&text("x")), true, product()).unwrap_err()),
        (400, "Invalid params format".to_string())
    );
    let bad_topic = Err(rmqtt_things::error::ApiError::bad_request("Invalid topic"));
    assert_eq!(
        err_text(property_report_start("dev-1", Some(&params), true, bad_topic).unwrap_err()),
        (400, "Invalid topic".to_string())
    );
}

#[test]
fn event_report_steps_in_order() {
    let params = obj(vec![]);
    let ok = || -> Result<String, rmqtt_things::error::ApiError> { Ok("prod".to_string()) };
    assert!(matches!(
        event_report_start(Some("property"), "bad id", None, true, ok()),
        Ok(EventStep::AsProperty)
    ));
    assert!(matches!(
        event_report_start(Some("alarm"), "dev-1", Some(&params), true, ok()),
        Ok(EventStep::Report(ReportStep::LoadSchema { .. }))
    ));
    assert!(matches!(
        event_report_start(None, "dev-1", Some(&params), true, ok()),
        Ok(EventStep::Report(ReportStep::Store { .. }))
    ));
    assert_eq!(
        err_text(event_report_start(Some("alarm"), "dev-1", None, true, ok()).unwrap_err()),
        (400, "Invalid params format".to_string())
    );
}

#[test]
fn checked_reports_are_stored() {
    let schema = number_schema();
    let good = obj(vec![("temperature", JsonValue::Number("1".into()))]);
    let bad = obj(vec![("temperature", text("hot"))]);
    assert!(matches!(
        report_checked(ReportKind::Event, "p".into(), Some(&schema), &good),
        Ok(ReportStep::Store { ref product_id }) if product_id == "p"
    ));
    assert!(matches!(report_checked(ReportKind::Event, "p".into(), None, &bad), Ok(ReportStep::Store { .. })));
    assert_eq!(
        err_text(report_checked(ReportKind::Event, "p".into(), Some(&schema), &bad).unwrap_err()),
        (400, "Event validation failed".to_string())
    );
}

#[test]
fn upload_steps_in_order() {
    let rules = vec!["${productId}/${deviceId}/*".to_string()];
    let key = file_upload_step(&rules, Ok("prod".into()), "dev-1", "prod/dev-1", "a.bin", true).unwrap();
    assert_eq!(key, "prod/dev-1/a.bin");
    let key = file_upload_step(&rules, Ok("prod".into()), "dev-1", "prod/dev-1/logs", "a.bin", false).unwrap();
    assert!(key.starts_with("prod/dev-1/logs/") && key.ends_with("_a.bin"));
    assert_eq!(
        err_text(file_upload_step(&rules, Ok("prod".into()), "dev-1", "prod/dev-2", "a.bin", true).unwrap_err()),
        (400, "Directory not allowed".to_string())
    );
    assert_eq!(
        err_text(file_upload_step(&rules, Ok("prod".into()), "bad id", "prod/dev-1", "a.bin", true).unwrap_err()).0,
        400
    );
    let topic_error = Err(rmqtt_things::error::ApiError::bad_request("Invalid topic"));
    assert_eq!(
        err_text(file_upload_step(&rules, topic_error, "bad id", "x", "a.bin", true).unwrap_err()),
        (400, "Invalid topic".to_string())
    );
}

#[test]
fn upload_without_storage_is_answered_503() {
    let JsonValue::Object(m) = unsupported_upload_reply("req-3".into()) else { panic!("not an object") };
    let names: Vec<&str> = m.iter().map(|(k, _)| k.as_str()).collect();
    assert_eq!(names, vec!["id", "code", "data"]);
    assert!(matches!(&m[0].1, JsonValue::String(s) if s == "req-3"));
    assert!(matches!(&m[1].1, JsonValue::Number(n) if n == "503"));
    assert!(matches!(&m[2].1, JsonValue::Object(d)
        if d.len() == 1 && d[0].0 == "message"
            && matches!(&d[0].1, JsonValue::String(t) if t == "do not support file upload")));
}

#[test]
fn service_reply_and_version_report_first_steps() {
    let ok = || -> Result<String, rmqtt_things::error::ApiError> { Ok("prod".to_string()) };
    assert_eq!(
        service_reply_target("dev-1", ok(), Some("property".into())).unwrap(),
        ("prod".to_string(), "property".to_string())
    );
    assert_eq!(
        err_text(service_reply_target("dev-1", ok(), None).unwrap_err()),
        (400, "Invalid service topic".to_string())
    );
    let topic_error = Err(rmqtt_things::error::ApiError::bad_request("Invalid topic"));
    assert_eq!(err_text(service_reply_target("bad id", topic_error, None).unwrap_err()).0, 400);
    assert_eq!(version_report_start(ok(), "dev-1").unwrap(), "prod");
    let topic_error = Err(rmqtt_things::error::ApiError::bad_request("Invalid topic"));
    assert_eq!(
        err_text(version_report_start(topic_error, "bad id").unwrap_err()),
        (400, "Invalid topic".to_string())
    );
    assert_eq!(err_text(version_report_start(ok(), "bad id").unwrap_err()).0, 400);
}
