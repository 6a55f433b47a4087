use rmqtt_things::product_handlers::create_product_error;
use rmqtt_things::error::ApiError;
use rmqtt_things::product_handlers::validate_create_product_request;
use rmqtt_things::product_handlers::validate_update_product_request;
use rmqtt_things::product_handlers::CreateProductRequest;
use rmqtt_things::product_handlers::UpdateProductRequest;

fn req(name: &str, model_no: &str) -> CreateProductRequest {
    CreateProductRequest { name: name.into(), model_no: model_no.into(), description: None }
}

fn err_status(result: Result<(), ApiError>) -> Option<u16> {
    result.err().map(|e| e.into_response().0)
}

#[test]
fn valid_request_passes() {
    assert!(validate_create_product_request(&req("Sensor", "sensor-v1")).is_ok());
}

#[test]
fn empty_model_no_rejected() {
    assert_eq!(err_status(validate_create_product_request(&req("Sensor", ""))), Some(400));
}

#[test]
fn empty_name_rejected() {
    assert_eq!(err_status(validate_create_product_request(&req("   ", "sensor-v1"))), Some(400));
}

#[test]
fn overlong_name_rejected() {
    let long = "a".repeat(129);
    assert_eq!(err_status(validate_create_product_request(&req(&long, "sensor-v1"))), Some(400));
}

#[test]
fn overlong_model_no_rejected() {
    let long = "a".repeat(129);
    assert_eq!(err_status(validate_create_product_request(&req("Sensor", &long))), Some(400));
}

#[test]
fn invalid_chars_in_model_no_rejected() {
    assert_eq!(err_status(validate_create_product_request(&req("Sensor", "sensor v1"))), Some(400));
    assert_eq!(err_status(validate_create_product_request(&req("Sensor", "sensor/v1"))), Some(400));
    assert_eq!(err_status(validate_create_product_request(&req("Sensor", "sensor.v1"))), Some(400));
}

#[test]
fn name_at_max_length_and_model_no_with_dashes_underscore_accepted() {
    let max_name = "a".repeat(128);
    assert!(validate_create_product_request(&req(&max_name, "sensor_v1-rc")).is_ok());
}

fn update_req(name: &str) -> UpdateProductRequest {
    UpdateProductRequest { name: name.into(), description: String::new(), auto_provisioning: false }
}

#[test]
fn update_valid_request_passes() {
    assert!(validate_update_product_request(&update_req("Sensor")).is_ok());
}

#[test]
fn update_empty_name_rejected() {
    assert_eq!(err_status(validate_update_product_request(&update_req("   "))), Some(400));
}

#[test]
fn update_overlong_name_rejected() {
    let long = "a".repeat(129);
    assert_eq!(err_status(validate_update_product_request(&update_req(&long))), Some(400));
}

#[test]
fn product_messages() {
    let e = validate_create_product_request(&req("  ", "")).unwrap_err();
    assert_eq!(e.into_response().1.error, "name must not be empty");
    let padded = format!("  {}  ", "a".repeat(128));
    assert!(validate_update_product_request(&update_req(&padded)).is_ok());
    let e = validate_create_product_request(&req("Sensor", "")).unwrap_err();
    assert_eq!(e.into_response().1.error, "model_no must not be empty");
}

#[test]
fn product_insert_failures_by_database_code() {
    let (status, body) = create_product_error(Some("23505")).into_response();
    assert_eq!((status, body.error.as_str()), (409, "产品型号编号已存在"));
    let (status, body) = create_product_error(Some("23503")).into_response();
    assert_eq!((status, body.error.as_str()), (500, "Database operation failed"));
    assert_eq!(create_product_error(None).status_code(), 500);
}

#[test]
fn product_name_bound_counts_characters() {
    let wide = "产".repeat(50);
    assert!(validate_create_product_request(&CreateProductRequest {
        name: wide.clone(),
        model_no: "sensor-v1".into(),
        description: None,
    })
    .is_ok());
    assert!(validate_update_product_request(&UpdateProductRequest {
        name: "产".repeat(128),
        description: String::new(),
        auto_provisioning: false,
    })
    .is_ok());
    let too_long = validate_update_product_request(&UpdateProductRequest {
        name: "产".repeat(129),
        description: String::new(),
        auto_provisioning: false,
    });
    assert_eq!(too_long.unwrap_err().into_response().1.error, "name must not exceed 128 characters");
}
