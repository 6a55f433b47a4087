use rmqtt_things::admin_handlers::check_download_request;
use rmqtt_things::admin_handlers::shadow_view;
use rmqtt_things::admin_models::ActionInvocation;
use rmqtt_things::admin_models::ActionInvocationView;
use rmqtt_things::admin_models::CommandStatus;
use rmqtt_things::admin_handlers::template_update_error;
use rmqtt_things::admin_handlers::check_new_template;
use rmqtt_things::admin_handlers::check_schema_error;
use rmqtt_things::admin_handlers::check_template_schema;
use rmqtt_things::admin_handlers::check_template_update;
use rmqtt_things::admin_handlers::desired_write_delta;
use rmqtt_things::admin_handlers::event_schema_cache_key;
use rmqtt_things::admin_handlers::file_key_directory;
use rmqtt_things::admin_handlers::shadow_documents;
use rmqtt_things::admin_handlers::template_cache_key;
use rmqtt_things::admin_handlers::template_change_outcome;
use rmqtt_things::admin_handlers::validate_file_key;
use rmqtt_things::error::ApiError;
use rmqtt_things::json::json_eq;
use rmqtt_things::json::JsonValue;
use rmqtt_things::admin_handlers::check_admin_upload;
use rmqtt_things::admin_handlers::validate_property_command;
use rmqtt_things::admin_handlers::validate_set_desired;
use rmqtt_things::admin_models::CreatePropertyCommandRequest;
use rmqtt_things::admin_models::SetDesiredRequest;

fn assert_bad_request(result: Result<(), ApiError>) {
    match result {
        Err(e) => assert_eq!(e.status_code(), 400, "expected 400 for invalid fileKey"),
        Ok(_) => panic!("expected rejection, got Ok"),
    }
}

#[test]
fn validate_file_key_rejects_empty() {
    assert_bad_request(validate_file_key(""));
}

#[test]
fn validate_file_key_rejects_overlong() {
    let overlong = "a".repeat(1025);
    assert_bad_request(validate_file_key(&overlong));
}

#[test]
fn validate_file_key_rejects_dotdot_segment() {
    assert_bad_request(validate_file_key("foo/../bar"));
    assert_bad_request(validate_file_key("foo/.."));
}

#[test]
fn validate_file_key_rejects_absolute_path() {
    assert_bad_request(validate_file_key("/etc/passwd"));
}

#[test]
fn validate_file_key_accepts_valid_keys() {
    assert!(validate_file_key("report.pdf").is_ok());
    assert!(validate_file_key("factory/attachments/report.pdf").is_ok());
    let max = "a".repeat(1024);
    assert!(validate_file_key(&max).is_ok());
}

#[test]
fn file_key_rejection_message() {
    let (status, body) = validate_file_key("a/../b").unwrap_err().into_response();
    assert_eq!(status, 400);
    assert_eq!(body.error, "Invalid fileKey");
}

#[test]
fn file_key_with_dots_inside_a_segment_is_accepted() {
    assert!(validate_file_key("a/..b/c").is_ok());
    assert!(validate_file_key("a/.../c").is_ok());
}

#[test]
fn file_key_directory_is_text_before_last_slash() {
    assert_eq!(file_key_directory("factory/attachments/report.pdf"), "factory/attachments");
    assert_eq!(file_key_directory("report.pdf"), "");
    assert_eq!(file_key_directory("a/"), "a");
}

#[test]
fn download_request_checks_in_order() {
    let rules = vec!["factory/*".to_string()];
    assert!(check_download_request("factory/a/b.bin", Some(&rules)).is_ok());
    let e = check_download_request("other/b.bin", Some(&rules)).unwrap_err();
    assert_eq!(e.status_code(), 403);
    let e = check_download_request("factory/b.bin", None).unwrap_err();
    assert_eq!(e.status_code(), 503);
    let e = check_download_request("/etc/passwd", None).unwrap_err();
    assert_eq!(e.status_code(), 400);
}

#[test]
fn schema_cache_keys() {
    assert_eq!(event_schema_cache_key("demo_product", "alarm"), "event:demo_product:alarm");
    assert_eq!(template_cache_key("demo_product", "property"), "demo_product");
    assert_eq!(template_cache_key("demo_product", "alarm"), "event:demo_product:alarm");
}

#[test]
fn template_change_outcome_cases() {
    let r = template_change_outcome(1, Some(("p1", "property")), "Template not found").unwrap();
    assert_eq!(r.as_deref(), Some("p1"));
    let r = template_change_outcome(1, Some(("p1", "boot")), "Template not found").unwrap();
    assert_eq!(r.as_deref(), Some("event:p1:boot"));
    let r = template_change_outcome(1, None, "Template not found").unwrap();
    assert!(r.is_none());
    let e = template_change_outcome(0, Some(("p1", "boot")), "Template not found or cannot be updated")
        .unwrap_err();
    let (status, body) = e.into_response();
    assert_eq!(status, 404);
    assert_eq!(body.error, "Template not found or cannot be updated");
}

fn num(n: &str) -> JsonValue {
    JsonValue::Number(n.to_string())
}

fn obj(members: Vec<(&str, JsonValue)>) -> JsonValue {
    JsonValue::Object(members.into_iter().map(|(k, v)| (k.to_string(), v)).collect())
}

#[test]
fn set_desired_delta_is_pushed_when_not_converged() {
    let merged = obj(vec![("brightness", num("80"))]);
    let reported = obj(vec![("brightness", obj(vec![("value", num("50"))]))]);
    let (delta, pushed) = desired_write_delta(&merged, Some(&reported));
    assert!(pushed);
    assert!(json_eq(&delta, &obj(vec![("brightness", num("80"))])));

    let reported = obj(vec![("brightness", obj(vec![("value", num("80"))]))]);
    let (delta, pushed) = desired_write_delta(&merged, Some(&reported));
    assert!(!pushed);
    assert!(json_eq(&delta, &obj(vec![])));
}

#[test]
fn shadow_documents_default_to_empty_objects() {
    let (desired, reported, delta) = shadow_documents(None, None);
    assert!(json_eq(&desired, &obj(vec![])));
    assert!(json_eq(&reported, &obj(vec![])));
    assert!(json_eq(&delta, &obj(vec![])));

    let (_, _, delta) = shadow_documents(Some(obj(vec![("mode", JsonValue::String("eco".to_string()))])), None);
    assert!(json_eq(&delta, &obj(vec![("mode", JsonValue::String("eco".to_string()))])));
}

#[test]
fn admin_upload_and_command_checks() {

    let rules = vec!["ota/*".to_string()];
    assert!(check_admin_upload(Some(&rules), "ota/v2").is_ok());
    assert_eq!(check_admin_upload(Some(&rules), "ota2").unwrap_err().status_code(), 400);
    assert_eq!(check_admin_upload(None, "ota").unwrap_err().status_code(), 500);

    let cmd = CreatePropertyCommandRequest {
        product_id: "p".into(),
        device_id: "d".into(),
        command: JsonValue::Null,
    };
    assert_eq!(
        validate_property_command(&cmd).unwrap_err().into_response().1.error,
        "command cannot be null"
    );
    let cmd = CreatePropertyCommandRequest {
        product_id: "p".into(),
        device_id: "d".into(),
        command: obj(vec![("power", JsonValue::Bool(true))]),
    };
    assert!(validate_property_command(&cmd).is_ok());

    let req = SetDesiredRequest { product_id: "p".into(), device_id: "d".into(), desired: vec![] };
    assert_eq!(
        validate_set_desired(&req).unwrap_err().into_response().1.error,
        "desired must be a non-empty JSON object"
    );
    let req = SetDesiredRequest {
        product_id: "p".into(),
        device_id: "d".into(),
        desired: vec![("k".to_string(), JsonValue::Null)],
    };
    assert!(validate_set_desired(&req).is_ok());
}

fn schema_of_type(t: JsonValue) -> JsonValue {
    JsonValue::Object(vec![("type".to_string(), t)])
}

fn refusal_of(r: Result<(), ApiError>) -> (u16, String) {
    let (status, body) = r.unwrap_err().into_response();
    (status, body.error)
}

#[test]
fn schema_error_is_named_in_the_refusal() {
    assert!(check_schema_error(None).is_ok());
    assert_eq!(
        refusal_of(check_schema_error(Some("bad type".to_string()))),
        (400, "Invalid JSON schema: bad type".to_string())
    );
}

#[test]
fn template_schemas_are_checked_against_their_meta_schema() {
    let good = schema_of_type(JsonValue::String("object".to_string()));
    let bad = schema_of_type(JsonValue::String("invalid_type".to_string()));
    assert!(check_template_schema(&good).is_ok());
    let (status, message) = refusal_of(check_template_schema(&bad));
    assert_eq!(status, 400);
    assert!(message.starts_with("Invalid JSON schema: "), "{message}");
    assert!(message.len() > "Invalid JSON schema: ".len());
}

#[test]
fn new_templates_need_an_identifier_then_a_valid_schema() {
    let good = schema_of_type(JsonValue::String("object".to_string()));
    let bad = schema_of_type(JsonValue::String("invalid_type".to_string()));
    assert!(check_new_template("prod_1", &good).is_ok());
    assert_eq!(
        refusal_of(check_new_template("bad id", &bad)),
        (
            400,
            "product_id contains invalid character. Only alphanumeric, '-' and '_' are allowed"
                .to_string()
        )
    );
    assert_eq!(refusal_of(check_new_template("prod_1", &bad)).0, 400);
}

#[test]
fn template_updates_check_only_a_given_schema() {
    let bad = schema_of_type(JsonValue::String("invalid_type".to_string()));
    assert!(check_template_update(None).is_ok());
    assert_eq!(refusal_of(check_template_update(Some(&bad))).0, 400);
}

#[test]
fn template_update_errors_pass_the_active_schema_refusal_through() {
    let marker = "cannot modify schema of active template";
    let text = "error returned from database: cannot modify schema of active template (id=4)";
    let (status, body) = template_update_error(text, marker).into_response();
    assert_eq!((status, body.error.as_str()), (400, text));
    let (status, body) = template_update_error("connection reset", marker).into_response();
    assert_eq!((status, body.error.as_str()), (500, "Database operation failed"));
    let (status, _) = template_update_error("cannot modify", marker).into_response();
    assert_eq!(status, 500);
}

fn members_of(v: &JsonValue) -> Vec<(String, String)> {
    match v {
        JsonValue::Object(m) => m
            .iter()
            .map(|(k, x)| {
                let text = match x {
                    JsonValue::Number(n) => n.clone(),
                    JsonValue::String(t) => t.clone(),
                    other => format!("{other:?}"),
                };
                (k.clone(), text)
            })
            .collect(),
        other => panic!("not an object: {other:?}"),
    }
}

#[test]
fn shadow_view_without_report_has_whole_desired_as_delta() {
    let t = time::OffsetDateTime::from_unix_timestamp(1_700_000_000).unwrap();
    let desired = JsonValue::Object(vec![
        ("temp".to_string(), JsonValue::Number("21".to_string())),
        ("mode".to_string(), JsonValue::Null),
    ]);
    let v = shadow_view(Some((desired, t)), None);
    assert_eq!(members_of(&v.delta), vec![("temp".to_string(), "21".to_string())]);
    assert!(members_of(&v.reported).is_empty());
    assert_eq!(v.desired_updated_time, Some(t));
    assert_eq!(v.reported_updated_time, None);
}

#[test]
fn shadow_view_of_nothing_is_empty() {
    let v = shadow_view(None, None);
    assert!(members_of(&v.desired).is_empty());
    assert!(members_of(&v.reported).is_empty());
    assert!(members_of(&v.delta).is_empty());
    assert!(v.desired_updated_time.is_none());
}

#[test]
fn action_invocation_view_keeps_the_row() {
    let t = time::OffsetDateTime::from_unix_timestamp(5).unwrap();
    let u = time::OffsetDateTime::from_unix_timestamp(9).unwrap();
    let v = ActionInvocationView::from_row(ActionInvocation {
        id: 4,
        service_type: "reboot".to_string(),
        params: JsonValue::Object(Vec::new()),
        status: CommandStatus::Sent,
        created_time: t,
        updated_time: u,
    });
    assert_eq!((v.id, v.service_type.as_str(), v.status), (4, "reboot", CommandStatus::Sent));
    assert_eq!((v.created_time, v.updated_time), (t, u));
}
