use rmqtt_things::factory_handlers::change_log_page;
use rmqtt_things::factory_handlers::check_associations;
use rmqtt_things::factory_handlers::device_view;
use rmqtt_things::factory_handlers::normalise_file_attachments;
use rmqtt_things::factory_handlers::prepare_component_upsert;
use rmqtt_things::factory_handlers::validate_file_attachments;
use rmqtt_things::factory_handlers::ComponentAssociationItem;
use rmqtt_things::factory_handlers::FactoryDeviceViewRow;
use rmqtt_things::factory_handlers::FactoryDeviceMetadataRow;
use rmqtt_things::factory_handlers::FileAttachment;
use rmqtt_things::factory_handlers::UpsertAssociationsRequest;
use rmqtt_things::factory_handlers::UpsertComponentRequest;
use rmqtt_things::factory_handlers::MAX_FILE_KEY_LEN;
use rmqtt_things::factory_middleware::factory_authorize;
use rmqtt_things::factory_middleware::FactoryAuthState;
use rmqtt_things::json::JsonValue;
use rmqtt_things::factory_handlers::prepare_device_metadata_upsert;
use rmqtt_things::factory_handlers::pull_view;
use rmqtt_things::factory_handlers::UpsertDeviceMetadataRequest;

#[test]
fn validate_file_attachments_none_is_ok() {
    assert!(validate_file_attachments(None).is_ok());
}

#[test]
fn validate_file_attachments_empty_file_key_rejected() {
    let items = vec![FileAttachment {
        file_key: "   ".to_string(),
        file_name: "x.bin".to_string(),
        content_type: None,
        size_bytes: None,
    }];
    assert!(validate_file_attachments(Some(&items)).is_err());
}

#[test]
fn validate_file_attachments_overlong_file_key_rejected() {
    let items = vec![FileAttachment {
        file_key: "a".repeat(MAX_FILE_KEY_LEN + 1),
        file_name: "x.bin".to_string(),
        content_type: None,
        size_bytes: None,
    }];
    assert!(validate_file_attachments(Some(&items)).is_err());
}

#[test]
fn validate_file_attachments_accepts_well_formed() {
    let items = vec![FileAttachment {
        file_key: "factory-attachments/abc/calib.bin".to_string(),
        file_name: "calib.bin".to_string(),
        content_type: Some("application/octet-stream".to_string()),
        size_bytes: Some(2048),
    }];
    assert!(validate_file_attachments(Some(&items)).is_ok());
}

fn state(keys: &[&str]) -> FactoryAuthState {
    FactoryAuthState { api_keys: keys.iter().map(|k| k.to_string()).collect() }
}

#[test]
fn empty_key_list_rejects_everything() {
    let s = state(&[]);
    assert_eq!(factory_authorize(Some("Bearer any"), &s).unwrap_err().status_code(), 401);
    assert_eq!(factory_authorize(None, &s).unwrap_err().status_code(), 401);
}

#[test]
fn missing_authorization_header_is_unauthorized() {
    let s = state(&["secret"]);
    assert_eq!(factory_authorize(None, &s).unwrap_err().status_code(), 401);
}

#[test]
fn wrong_bearer_is_unauthorized() {
    let s = state(&["secret"]);
    let e = factory_authorize(Some("Bearer nope"), &s).unwrap_err();
    let (status, body) = e.into_response();
    assert_eq!(status, 401);
    assert_eq!(body.error, "Invalid factory API key");
}

#[test]
fn non_bearer_scheme_is_unauthorized() {
    let s = state(&["secret"]);
    assert_eq!(factory_authorize(Some("Basic secret"), &s).unwrap_err().status_code(), 401);
}

#[test]
fn valid_bearer_passes() {
    let s = state(&["secret", "backup"]);
    let caller = factory_authorize(Some("Bearer backup"), &s).unwrap();
    assert_eq!(caller.label, "factory");
}

#[test]
fn component_upsert_defaults() {
    let req = UpsertComponentRequest { component_type: None, metadata: None, file_attachments: None };
    let u = prepare_component_upsert("cam-01", req).unwrap();
    assert_eq!(u.component_type, "camera");
    match u.metadata {
        JsonValue::Object(m) => assert!(m.is_empty()),
        _ => panic!("metadata must be an object"),
    }
    match u.file_attachments {
        JsonValue::Array(a) => assert!(a.is_empty()),
        _ => panic!("attachments must be an array"),
    }
    let req = UpsertComponentRequest {
        component_type: Some("radar".into()),
        metadata: None,
        file_attachments: Some(vec![FileAttachment {
            file_key: "k".into(),
            file_name: "n".into(),
            content_type: None,
            size_bytes: Some(-12),
        }]),
    };
    let u = prepare_component_upsert("radar-1", req).unwrap();
    assert_eq!(u.component_type, "radar");
    match u.file_attachments {
        JsonValue::Array(a) => {
            assert_eq!(a.len(), 1);
            match &a[0] {
                JsonValue::Object(m) => {
                    let keys: Vec<&str> = m.iter().map(|(k, _)| k.as_str()).collect();
                    assert_eq!(keys, vec!["fileKey", "fileName", "contentType", "sizeBytes"]);
                    match &m[3].1 {
                        JsonValue::Number(n) => assert_eq!(n, "-12"),
                        _ => panic!("size must be a number"),
                    }
                    assert!(matches!(m[2].1, JsonValue::Null));
                }
                _ => panic!("attachment must be an object"),
            }
        }
        _ => panic!("attachments must be an array"),
    }
    let bad = UpsertComponentRequest { component_type: None, metadata: None, file_attachments: None };
    assert_eq!(prepare_component_upsert("bad sn", bad).unwrap_err().status_code(), 400);
}

#[test]
fn associations_are_checked_in_order() {
    let req = UpsertAssociationsRequest {
        components: vec![
            ComponentAssociationItem { component_sn: "ok-1".into(), component_type: None },
            ComponentAssociationItem { component_sn: "bad/2".into(), component_type: None },
            ComponentAssociationItem { component_sn: "".into(), component_type: None },
        ],
    };
    let e = check_associations("dev-1", &req).unwrap_err();
    assert_eq!(
        e.into_response().1.error,
        "componentSn contains invalid character. Only alphanumeric, '-' and '_' are allowed"
    );
    let ok = UpsertAssociationsRequest { components: vec![] };
    assert!(check_associations("dev-1", &ok).is_ok());
    assert_eq!(check_associations("", &ok).unwrap_err().status_code(), 400);
}

#[test]
fn attachments_are_normalised() {
    assert!(normalise_file_attachments(None).is_empty());
    assert!(normalise_file_attachments(Some(JsonValue::Null)).is_empty());
    let one = normalise_file_attachments(Some(JsonValue::String("k".into())));
    assert_eq!(one.len(), 1);
    let many = normalise_file_attachments(Some(JsonValue::Array(vec![JsonValue::Null, JsonValue::Bool(true)])));
    assert_eq!(many.len(), 2);
}

#[test]
fn device_view_needs_rows() {
    assert_eq!(device_view("dev".into(), None, None).unwrap_err().status_code(), 404);
    let rows = vec![FactoryDeviceViewRow {
        component_sn: "c1".into(),
        meta_type: None,
        assoc_type: Some("radar".into()),
        metadata: None,
        file_attachments: None,
        updated_at: None,
    }];
    let v = device_view("dev".into(), Some(rows), None).unwrap();
    assert_eq!(v.components.len(), 1);
    assert_eq!(v.components[0].component_type.as_deref(), Some("radar"));
    assert!(v.device_metadata.is_none());
}

#[test]
fn change_log_pages_are_clamped() {
    assert_eq!(change_log_page(0, 0), (1, 1));
    assert_eq!(change_log_page(-5, 5000), (1, 1000));
    assert_eq!(change_log_page(3, 20), (3, 20));
    assert_eq!(change_log_page(4_294_967_301, 20), (u32::MAX, 20));
    assert_eq!(change_log_page(4_294_967_296, 20), (u32::MAX, 20));
    assert_eq!(change_log_page(4_294_967_295, 20), (u32::MAX, 20));
}

#[test]
fn device_metadata_upsert_and_pull() {

    let req = UpsertDeviceMetadataRequest {
        metadata: Some(vec![("qc".to_string(), JsonValue::Bool(true))]),
        file_attachments: Some(vec![FileAttachment {
            file_key: " ".into(),
            file_name: "n".into(),
            content_type: None,
            size_bytes: None,
        }]),
    };
    let e = prepare_device_metadata_upsert("dev-1", req).unwrap_err();
    assert_eq!(e.into_response().1.error, "Invalid fileAttachments");
    let req = UpsertDeviceMetadataRequest { metadata: None, file_attachments: None };
    let u = prepare_device_metadata_upsert("dev-1", req).unwrap();
    assert!(matches!(u.metadata, JsonValue::Object(ref m) if m.is_empty()));

    assert!(pull_view("dev-1".into(), None, None).is_none());
    let v = pull_view("dev-1".into(), Some(vec![]), None).unwrap();
    assert_eq!(v.device_sn, "dev-1");
    assert!(v.components.is_empty());
}

#[test]
fn merged_view_keeps_every_field() {
    let t = time::OffsetDateTime::from_unix_timestamp(1_700_000_000).unwrap();
    let rows = vec![
        FactoryDeviceViewRow {
            component_sn: "cam-1".into(),
            meta_type: Some("camera".into()),
            assoc_type: Some("radar".into()),
            metadata: Some(JsonValue::Object(vec![("lens".to_string(), JsonValue::String("wide".into()))])),
            file_attachments: Some(JsonValue::String("one".into())),
            updated_at: Some(t),
        },
        FactoryDeviceViewRow {
            component_sn: "rad-1".into(),
            meta_type: None,
            assoc_type: Some("radar".into()),
            metadata: None,
            file_attachments: Some(JsonValue::Null),
            updated_at: None,
        },
    ];
    let meta = FactoryDeviceMetadataRow {
        metadata: Some(JsonValue::Bool(true)),
        file_attachments: Some(JsonValue::Array(vec![JsonValue::Number("1".into()), JsonValue::Number("2".into())])),
        updated_at: Some(t),
    };
    let v = pull_view("dev-9".into(), Some(rows), Some(meta)).unwrap();
    assert_eq!(v.device_sn, "dev-9");
    let c = &v.components[0];
    assert_eq!((c.component_sn.as_str(), c.component_type.as_deref()), ("cam-1", Some("camera")));
    assert!(matches!(&c.metadata, Some(JsonValue::Object(m)) if m.len() == 1 && m[0].0 == "lens"));
    assert!(matches!(c.file_attachments.as_slice(), [JsonValue::String(s)] if s == "one"));
    assert_eq!(c.updated_at, Some(t));
    let c = &v.components[1];
    assert_eq!((c.component_sn.as_str(), c.component_type.as_deref()), ("rad-1", Some("radar")));
    assert!(c.metadata.is_none() && c.file_attachments.is_empty() && c.updated_at.is_none());
    let d = v.device_metadata.as_ref().unwrap();
    assert!(matches!(d.metadata, Some(JsonValue::Bool(true))));
    assert_eq!(d.file_attachments.len(), 2);
    assert_eq!(d.updated_at, Some(t));
}
