use rmqtt_things::alarm_handlers::check_ack;
use rmqtt_things::alarm_handlers::check_ack_rows;
use rmqtt_things::alarm_handlers::check_alarm_filters;
use rmqtt_things::alarm_handlers::check_clear;
use rmqtt_things::alarm_handlers::check_clear_rows;
use rmqtt_things::alarm_handlers::check_new_rule;
use rmqtt_things::alarm_handlers::check_rule_rows;
use rmqtt_things::alarm_handlers::check_rule_update;
use rmqtt_things::alarm_handlers::check_trigger_type;
use rmqtt_things::alarm_handlers::check_update_duration;
use rmqtt_things::alarm_handlers::level_name;
use rmqtt_things::alarm_handlers::parse_level;
use rmqtt_things::alarm_handlers::AlarmRecord;
use rmqtt_things::alarm_handlers::Timestamp;
use rmqtt_things::alarm_handlers::ApiAlarmRecord;
use rmqtt_things::alarm_models::AlarmQuery;
use rmqtt_things::alarm_models::AlarmRule;
use rmqtt_things::alarm_models::CreateAlarmRuleRequest;
use rmqtt_things::alarm_models::UpdateAlarmRuleRequest;
use rmqtt_things::error::ApiError;
use rmqtt_things::json::JsonValue;

fn msg(e: ApiError) -> (u16, String) {
    let (status, body) = e.into_response();
    (status, body.error)
}

fn empty() -> JsonValue {
    JsonValue::Object(Vec::new())
}

fn member(k: &str, v: JsonValue) -> (String, JsonValue) {
    (k.to_string(), v)
}

fn text(v: &str) -> JsonValue {
    JsonValue::String(v.to_string())
}

fn greater_than_50() -> JsonValue {
    JsonValue::Object(vec![member("operator", text(">")), member("value", JsonValue::Number("50".into()))])
}

fn create_req(trigger_type: &str, duration: i32, clear: bool) -> CreateAlarmRuleRequest {
    let trigger_config = match trigger_type {
        "property" => JsonValue::Object(vec![member("property_name", text("temperature"))]),
        "event" => JsonValue::Object(vec![member("event_identifier", text("overheat"))]),
        _ => empty(),
    };
    CreateAlarmRuleRequest {
        product_id: "sensor-v1".into(),
        name: "n".into(),
        description: None,
        trigger_type: trigger_type.into(),
        trigger_config,
        condition: greater_than_50(),
        actions: JsonValue::Array(vec![JsonValue::Object(vec![
            member("type", text("alarm")),
            member("level", text("warning")),
        ])]),
        throttle_minutes: 0,
        duration_minutes: duration,
        clear_condition: if clear { Some(greater_than_50()) } else { None },
    }
}

fn update_req(duration: Option<i32>, clear: Option<Option<JsonValue>>) -> UpdateAlarmRuleRequest {
    UpdateAlarmRuleRequest {
        name: None,
        description: None,
        trigger_config: None,
        condition: None,
        actions: None,
        throttle_minutes: None,
        duration_minutes: duration,
        clear_condition: clear,
    }
}

fn rule(trigger_type: &str) -> AlarmRule {
    AlarmRule {
        id: 1,
        product_id: "sensor-v1".into(),
        name: "n".into(),
        description: None,
        trigger_type: trigger_type.into(),
        trigger_config: empty(),
        condition: empty(),
        actions: JsonValue::Array(Vec::new()),
        throttle_minutes: 0,
        duration_minutes: 0,
        clear_condition: None,
        enabled: true,
    }
}

#[test]
fn levels_parse_and_name() {
    assert_eq!(parse_level("info"), Some(0));
    assert_eq!(parse_level("warning"), Some(1));
    assert_eq!(parse_level("critical"), Some(2));
    assert_eq!(parse_level("Critical"), None);
    assert_eq!(level_name(0), "info");
    assert_eq!(level_name(1), "warning");
    assert_eq!(level_name(2), "critical");
    assert_eq!(level_name(7), "critical");
    for l in 0..3 {
        assert_eq!(parse_level(&level_name(l)), Some(l));
    }
}

#[test]
fn trigger_type_must_be_known() {
    assert!(check_trigger_type("device_offline").is_ok());
    assert_eq!(
        msg(check_trigger_type("pressure").unwrap_err()),
        (
            400,
            "Invalid trigger_type 'pressure'. Must be one of: property, event, device_online, device_offline"
                .to_string()
        )
    );
}

#[test]
fn new_rule_checks() {
    assert!(check_new_rule(&create_req("property", 5, true), true).is_ok());
    assert_eq!(
        msg(check_new_rule(&create_req("property", 0, false), false).unwrap_err()),
        (400, "Product 'sensor-v1' not found".to_string())
    );
    assert_eq!(
        msg(check_new_rule(&create_req("property", -1, false), true).unwrap_err()),
        (400, "duration_minutes must be >= 0".to_string())
    );
    assert_eq!(
        msg(check_new_rule(&create_req("event", 0, true), true).unwrap_err()),
        (400, "Duration and clear conditions are only supported for property trigger type".to_string())
    );
    assert!(check_new_rule(&create_req("event", 0, false), true).is_ok());
}

#[test]
fn new_rules_must_be_valid_rules() {
    let mut bogus = create_req("property", 0, false);
    bogus.condition = JsonValue::Object(vec![member("operator", text("BOGUS"))]);
    assert_eq!(msg(check_new_rule(&bogus, true).unwrap_err()).0, 400);
    let mut silent = create_req("property", 0, false);
    silent.actions = JsonValue::Array(Vec::new());
    assert_eq!(msg(check_new_rule(&silent, true).unwrap_err()).0, 400);
    let mut unnamed = create_req("property", 0, false);
    unnamed.trigger_config = empty();
    assert_eq!(
        msg(check_new_rule(&unnamed, true).unwrap_err()),
        (400, "trigger_config.property_name is required for property trigger type".to_string())
    );
    assert_eq!(
        msg(check_new_rule(&bogus, false).unwrap_err()),
        (400, "Product 'sensor-v1' not found".to_string())
    );
}

#[test]
fn rule_update_checks() {
    assert!(check_update_duration(&update_req(Some(0), None)).is_ok());
    assert_eq!(msg(check_update_duration(&update_req(Some(-3), None)).unwrap_err()).0, 400);
    assert_eq!(
        msg(check_rule_update(None, &update_req(None, None)).unwrap_err()),
        (404, "Alarm rule not found".to_string())
    );
    let event_rule = rule("event");
    assert!(check_rule_update(Some(&event_rule), &update_req(Some(0), Some(None))).is_ok());
    assert_eq!(
        msg(check_rule_update(Some(&event_rule), &update_req(None, Some(Some(empty())))).unwrap_err()).0,
        400
    );
    assert_eq!(msg(check_rule_update(Some(&event_rule), &update_req(Some(2), None)).unwrap_err()).0, 400);
    let property_rule = rule("property");
    assert!(check_rule_update(Some(&property_rule), &update_req(Some(2), Some(Some(empty())))).is_ok());
    assert_eq!(msg(check_rule_rows(0).unwrap_err()).0, 404);
    assert!(check_rule_rows(1).is_ok());
}

fn query(status: Option<&str>, acknowledged: Option<bool>, level: Option<&str>) -> AlarmQuery {
    AlarmQuery {
        product_id: None,
        device_id: None,
        level: level.map(|l| l.to_string()),
        acknowledged,
        status: status.map(|s| s.to_string()),
        page: 1,
        page_size: 10,
    }
}

#[test]
fn alarm_listing_filters() {
    assert_eq!(
        msg(check_alarm_filters(&query(Some("active"), Some(true), None)).unwrap_err()),
        (400, "Parameters 'status' and 'acknowledged' are mutually exclusive".to_string())
    );
    assert_eq!(msg(check_alarm_filters(&query(Some("Active"), None, None)).unwrap_err()).0, 400);
    assert_eq!(check_alarm_filters(&query(Some("cleared"), None, Some("warning"))).unwrap(), Some(1));
    assert_eq!(check_alarm_filters(&query(None, Some(false), Some("loud"))).unwrap(), None);
}

#[test]
fn alarm_life_cycle_checks() {
    assert!(check_ack(Some("active")).is_ok());
    assert_eq!(
        msg(check_ack(Some("acknowledged")).unwrap_err()),
        (409, "Only alarms in active status can be acknowledged".to_string())
    );
    assert_eq!(msg(check_ack(None).unwrap_err()), (404, "Alarm not found".to_string()));
    assert!(check_clear(Some("active")).is_ok());
    assert!(check_clear(Some("acknowledged")).is_ok());
    assert_eq!(msg(check_clear(Some("cleared")).unwrap_err()), (409, "Alarm already cleared".to_string()));
    assert_eq!(msg(check_ack_rows(0).unwrap_err()).0, 409);
    assert_eq!(msg(check_clear_rows(0).unwrap_err()).0, 409);
    assert!(check_ack_rows(1).is_ok() && check_clear_rows(1).is_ok());
}

#[test]
fn api_alarm_record_labels() {
    let t = time::OffsetDateTime::from_unix_timestamp(1_700_000_000).unwrap();
    let record = AlarmRecord {
        id: 7,
        rule_id: 3,
        rule_name: "hot".into(),
        product_id: "p".into(),
        device_id: "d".into(),
        level: 1,
        message: Some("too hot".into()),
        trigger_value: None,
        status: "acknowledged".into(),
        webhook_status: Some(2),
        created_at: t,
        cleared_at: Some(Timestamp { unix_nanos: 1_700_000_000_000_000_000, offset_seconds: 0 }),
    };
    let api = ApiAlarmRecord::from_record(record);
    assert_eq!(api.level, "warning");
    assert!(api.acknowledged);
    assert_eq!(api.webhook_status.as_deref(), Some("failed"));
    assert_eq!(api.cleared_at.as_deref(), Some("2023-11-14T22:13:20Z"));
    assert_eq!(api.id, 7);

    let record = AlarmRecord {
        id: 8,
        rule_id: 3,
        rule_name: "hot".into(),
        product_id: "p".into(),
        device_id: "d".into(),
        level: 0,
        message: None,
        trigger_value: None,
        status: "active".into(),
        webhook_status: Some(0),
        created_at: t,
        cleared_at: None,
    };
    let api = ApiAlarmRecord::from_record(record);
    assert_eq!(api.level, "info");
    assert!(!api.acknowledged);
    assert_eq!(api.webhook_status.as_deref(), Some("success"));
    assert!(api.cleared_at.is_none());
}

fn cleared_record(cleared_at: Timestamp) -> AlarmRecord {
    AlarmRecord {
        id: 9,
        rule_id: 3,
        rule_name: "hot".into(),
        product_id: "p".into(),
        device_id: "d".into(),
        level: 2,
        message: None,
        trigger_value: None,
        status: "cleared".into(),
        webhook_status: None,
        created_at: time::OffsetDateTime::from_unix_timestamp(0).unwrap(),
        cleared_at: Some(cleared_at),
    }
}

#[test]
fn cleared_time_is_written_in_its_offset() {
    let api = ApiAlarmRecord::from_record(cleared_record(Timestamp {
        unix_nanos: 1_700_000_000_500_000_000,
        offset_seconds: 8 * 3600,
    }));
    assert_eq!(api.cleared_at.as_deref(), Some("2023-11-15T06:13:20.5+08:00"));
    assert_eq!(api.level, "critical");
    assert!(api.webhook_status.is_none());
}

#[test]
fn unwritable_cleared_time_is_omitted() {
    let bad_offset = Timestamp { unix_nanos: 0, offset_seconds: 100_000 };
    assert!(ApiAlarmRecord::from_record(cleared_record(bad_offset)).cleared_at.is_none());
    let far = Timestamp { unix_nanos: i128::MAX, offset_seconds: 0 };
    assert!(ApiAlarmRecord::from_record(cleared_record(far)).cleared_at.is_none());
}
