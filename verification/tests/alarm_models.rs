use rmqtt_things::alarm_models::validate_identifier_safe;
use rmqtt_things::alarm_models::validate_actions;
use rmqtt_things::alarm_models::validate_alarm_status;
use rmqtt_things::alarm_models::validate_condition;
use rmqtt_things::alarm_models::validate_create_rule_request;
use rmqtt_things::alarm_models::validate_trigger_config;
use rmqtt_things::alarm_models::CreateAlarmRuleRequest;
use rmqtt_things::error::ApiError;
use rmqtt_things::json::JsonValue;

fn s(v: &str) -> JsonValue {
    JsonValue::String(v.to_string())
}

fn num(n: &str) -> JsonValue {
    JsonValue::Number(n.to_string())
}

fn obj(members: Vec<(&str, JsonValue)>) -> JsonValue {
    JsonValue::Object(members.into_iter().map(|(k, v)| (k.to_string(), v)).collect())
}

fn arr(items: Vec<JsonValue>) -> JsonValue {
    JsonValue::Array(items)
}

fn err_status(err: ApiError) -> u16 {
    err.into_response().0
}

fn err_message(err: ApiError) -> String {
    err.into_response().1.error
}

fn base_property_req() -> CreateAlarmRuleRequest {
    CreateAlarmRuleRequest {
        product_id: "p1".into(),
        name: "n".into(),
        description: None,
        trigger_type: "property".into(),
        trigger_config: obj(vec![("property_name", s("temperature"))]),
        condition: obj(vec![("operator", s(">")), ("value", num("50"))]),
        actions: arr(vec![obj(vec![("type", s("alarm")), ("level", s("warning"))])]),
        throttle_minutes: 0,
        duration_minutes: 0,
        clear_condition: None,
    }
}

#[test]
fn condition_rejects_unknown_operator() {
    let err = validate_condition(&obj(vec![("operator", s("_APPROX")), ("value", num("1"))]), "condition")
        .unwrap_err();
    assert_eq!(err_status(err), 400);
}

#[test]
fn condition_rejects_missing_operator() {
    let err = validate_condition(&obj(vec![("value", num("1"))]), "condition").unwrap_err();
    assert_eq!(err_status(err), 400);
}

#[test]
fn condition_rejects_non_object() {
    let err = validate_condition(&arr(vec![num("1"), num("2"), num("3")]), "condition").unwrap_err();
    assert_eq!(err_status(err), 400);
}

#[test]
fn condition_accepts_always_operator() {
    assert!(validate_condition(&obj(vec![("operator", s("always"))]), "condition").is_ok());
}

#[test]
fn condition_accepts_between_operator() {
    assert!(validate_condition(
        &obj(vec![("operator", s("between")), ("min", num("0")), ("max", num("10"))]),
        "condition"
    )
    .is_ok());
}

#[test]
fn condition_messages_name_the_field() {
    assert_eq!(
        err_message(validate_condition(&num("1"), "clear_condition").unwrap_err()),
        "clear_condition must be a JSON object"
    );
    assert_eq!(
        err_message(validate_condition(&obj(vec![("operator", num("1"))]), "condition").unwrap_err()),
        "condition must contain an 'operator' string field"
    );
    assert_eq!(
        err_message(validate_condition(&obj(vec![("operator", s("~"))]), "condition").unwrap_err()),
        "condition has unsupported operator '~'. Must be one of: >, >=, <, <=, ==, !=, between, contains, always"
    );
    for op in [">", ">=", "<", "<=", "==", "!=", "between", "contains", "always"] {
        assert!(validate_condition(&obj(vec![("operator", s(op))]), "condition").is_ok());
    }
}

#[test]
fn actions_rejects_empty_array() {
    let err = validate_actions(&arr(vec![])).unwrap_err();
    assert_eq!(err_status(err), 400);
}

#[test]
fn actions_rejects_no_alarm_action() {
    let err = validate_actions(&arr(vec![obj(vec![("type", s("webhook")), ("url", s("http://x"))])]))
        .unwrap_err();
    assert_eq!(err_status(err), 400);
}

#[test]
fn actions_rejects_non_array() {
    let err = validate_actions(&obj(vec![("type", s("alarm"))])).unwrap_err();
    assert_eq!(err_status(err), 400);
}

#[test]
fn actions_accepts_with_alarm_action() {
    assert!(validate_actions(&arr(vec![obj(vec![("type", s("alarm")), ("level", s("info"))])])).is_ok());
}

#[test]
fn actions_alarm_may_follow_other_actions() {
    assert!(validate_actions(&arr(vec![
        obj(vec![("type", s("webhook"))]),
        num("3"),
        obj(vec![("type", s("alarm"))]),
    ]))
    .is_ok());
}

#[test]
fn trigger_property_requires_property_name() {
    let err = validate_trigger_config("property", &obj(vec![])).unwrap_err();
    assert_eq!(err_status(err), 400);
}

#[test]
fn trigger_event_requires_event_identifier() {
    let err = validate_trigger_config("event", &obj(vec![])).unwrap_err();
    assert_eq!(err_status(err), 400);
}

#[test]
fn trigger_property_rejects_empty_property_name() {
    let err = validate_trigger_config("property", &obj(vec![("property_name", s(""))])).unwrap_err();
    assert_eq!(err_status(err), 400);
}

#[test]
fn trigger_device_online_needs_no_fields() {
    assert!(validate_trigger_config("device_online", &obj(vec![])).is_ok());
}

#[test]
fn trigger_invalid_type_rejected() {
    let err = validate_trigger_config("pressure", &obj(vec![])).unwrap_err();
    assert_eq!(err_status(err), 400);
}

#[test]
fn trigger_messages() {
    assert_eq!(
        err_message(validate_trigger_config("pressure", &obj(vec![])).unwrap_err()),
        "Invalid trigger_type 'pressure'. Must be one of: property, event, device_online, device_offline"
    );
    assert_eq!(
        err_message(validate_trigger_config("pressure", &num("1")).unwrap_err()),
        "trigger_config must be a JSON object"
    );
    assert_eq!(
        err_message(
            validate_trigger_config("event", &obj(vec![("event_identifier", s("bad id"))])).unwrap_err()
        ),
        "event_identifier contains invalid character. Only alphanumeric, '-' and '_' are allowed"
    );
    let long = "a".repeat(129);
    assert_eq!(
        err_message(
            validate_trigger_config("property", &obj(vec![("property_name", s(&long))])).unwrap_err()
        ),
        "property_name must not exceed 128 characters"
    );
    assert!(validate_trigger_config("device_offline", &obj(vec![])).is_ok());
}

#[test]
fn create_request_valid_payload_passes() {
    assert!(validate_create_rule_request(&base_property_req()).is_ok());
}

#[test]
fn create_request_invalid_operator_rejected() {
    let mut req = base_property_req();
    req.condition = obj(vec![("operator", s("BOGUS")), ("value", num("1"))]);
    assert_eq!(err_status(validate_create_rule_request(&req).unwrap_err()), 400);
}

#[test]
fn create_request_empty_actions_rejected() {
    let mut req = base_property_req();
    req.actions = arr(vec![]);
    assert_eq!(err_status(validate_create_rule_request(&req).unwrap_err()), 400);
}

#[test]
fn create_request_property_missing_property_name_rejected() {
    let mut req = base_property_req();
    req.trigger_config = obj(vec![]);
    assert_eq!(err_status(validate_create_rule_request(&req).unwrap_err()), 400);
}

#[test]
fn create_request_event_missing_identifier_rejected() {
    let mut req = base_property_req();
    req.trigger_type = "event".into();
    req.trigger_config = obj(vec![]);
    assert_eq!(err_status(validate_create_rule_request(&req).unwrap_err()), 400);
}

#[test]
fn create_request_clear_condition_invalid_operator_rejected() {
    let mut req = base_property_req();
    req.clear_condition = Some(obj(vec![("operator", s("BOGUS"))]));
    assert_eq!(err_status(validate_create_rule_request(&req).unwrap_err()), 400);
}

#[test]
fn create_request_reports_first_problem() {
    let mut req = base_property_req();
    req.condition = num("1");
    req.actions = arr(vec![]);
    assert_eq!(
        err_message(validate_create_rule_request(&req).unwrap_err()),
        "condition must be a JSON object"
    );
}

#[test]
fn alarm_status_none_is_ok() {
    assert!(validate_alarm_status(None).is_ok());
}

#[test]
fn alarm_status_active_is_ok() {
    assert!(validate_alarm_status(Some("active")).is_ok());
    assert!(validate_alarm_status(Some("acknowledged")).is_ok());
    assert!(validate_alarm_status(Some("cleared")).is_ok());
}

#[test]
fn alarm_status_unknown_rejected() {
    let err = validate_alarm_status(Some("foo")).unwrap_err();
    assert_eq!(err_status(err), 400);
}

#[test]
fn alarm_status_case_sensitive() {
    let err = validate_alarm_status(Some("Active")).unwrap_err();
    assert_eq!(err_status(err), 400);
}

#[test]
fn alarm_status_message() {
    assert_eq!(
        err_message(validate_alarm_status(Some("foo")).unwrap_err()),
        "Invalid status 'foo'. Must be one of: active, acknowledged, cleared"
    );
}

#[test]
fn safe_identifiers_must_be_non_empty() {
    let e = validate_identifier_safe("", "property_name").unwrap_err().into_response();
    assert_eq!((e.0, e.1.error.as_str()), (400, "property_name must not be empty"));
    assert!(validate_identifier_safe("temp_1-a", "property_name").is_ok());
    let long = "a".repeat(129);
    let e = validate_identifier_safe(&long, "event_identifier").unwrap_err().into_response();
    assert_eq!(e.1.error, "event_identifier must not exceed 128 characters");
    let e = validate_identifier_safe("a.b", "event_identifier").unwrap_err().into_response();
    assert_eq!(
        e.1.error,
        "event_identifier contains invalid character. Only alphanumeric, '-' and '_' are allowed"
    );
}
