//! Production-line metadata: the checks and defaults of component and
//! device writes, and the merged view of a device's components.
use crate::error::fails_with;
use crate::error::ApiError;
use crate::json::deep_seq;
use crate::json::lemma_array_deep;
use crate::json::lemma_deep_seq;
use crate::json::lemma_members;
use crate::json::lemma_object_deep;
use crate::json::members;
use crate::json::Json;
use crate::json::JsonValue;
use crate::text::chars_of;
use crate::text::int_decimal;
use crate::text::owned;
use crate::text::push_i64_decimal;
use crate::text::string_from;
use crate::text::trim;
use crate::text::trim_bounds;
use crate::text::utf8_len;
use crate::text::utf8_len_exceeds;
use crate::utils::identifier_error;
use crate::utils::valid_identifier;
use crate::utils::validate_identifier;
use time::OffsetDateTime;
use vstd::prelude::*;

verus! {

/// Longest accepted file key, in bytes.
pub const MAX_FILE_KEY_LEN: usize = 1024;

/// A reference to an uploaded attachment.
#[derive(Debug)]
pub struct FileAttachment {
    /// The object key the upload returned.
    pub file_key: String,
    pub file_name: String,
    pub content_type: Option<String>,
    pub size_bytes: Option<i64>,
}

/// Body of a component write; omitted fields take their defaults.
#[derive(Debug)]
pub struct UpsertComponentRequest {
    /// Defaults to `camera`.
    pub component_type: Option<String>,
    /// Members of the metadata object; defaults to `{}`.
    pub metadata: Option<Vec<(String, JsonValue)>>,
    /// Defaults to `[]`.
    pub file_attachments: Option<Vec<FileAttachment>>,
}

/// Body of a device-level metadata write.
#[derive(Debug)]
pub struct UpsertDeviceMetadataRequest {
    pub metadata: Option<Vec<(String, JsonValue)>>,
    pub file_attachments: Option<Vec<FileAttachment>>,
}

/// One component of a device.
#[derive(Debug)]
pub struct ComponentAssociationItem {
    pub component_sn: String,
    pub component_type: Option<String>,
}

/// The full list of a device's components.
#[derive(Debug)]
pub struct UpsertAssociationsRequest {
    pub components: Vec<ComponentAssociationItem>,
}

// ---------------------------------------------------------------------------
// Attachments
// ---------------------------------------------------------------------------

/// An attachment's key is usable: not blank, at most 1024 bytes.
pub open spec fn attachment_ok(a: FileAttachment) -> bool {
    trim(a.file_key@).len() > 0 && utf8_len(a.file_key@) <= 1024
}

/// Every attachment of the list has a usable key.
pub open spec fn all_attachments_ok(s: Seq<FileAttachment>) -> bool {
    forall|i: int| 0 <= i < s.len() ==> attachment_ok(#[trigger] s[i])
}

/// Every attachment of a given list has a usable key.
pub open spec fn attachments_ok(items: Option<Seq<FileAttachment>>) -> bool {
    match items {
        Some(s) => all_attachments_ok(s),
        None => true,
    }
}

/// Checks every attachment's key.
pub fn validate_file_attachments(items: Option<&[FileAttachment]>) -> (r: Result<(), ApiError>)
    ensures
        r is Ok <==> attachments_ok(
            match items {
                Some(s) => Some(s@),
                None => None,
            },
        ),
        r is Err ==> fails_with(r, 400, "Invalid fileAttachments"@),
{
    let list = match items {
        Some(s) => s,
        None => {
            return Ok(());
        },
    };
    let mut i: usize = 0;
    while i < list.len()
        invariant
            i <= list@.len(),
            items == Some(list),
            forall|j: int| 0 <= j < i ==> attachment_ok(#[trigger] list@[j]),
        decreases list@.len() - i,
    {
        let k = chars_of(list[i].file_key.as_str());
        let (a, b) = trim_bounds(&k);
        if a == b {
            assert(trim(k@).len() == 0);
            assert(!attachment_ok(list@[i as int]));
            return Err(ApiError::bad_request("Invalid fileAttachments"));
        }
        if utf8_len_exceeds(&k, 0, k.len(), MAX_FILE_KEY_LEN) {
            assert(k@.subrange(0, k@.len() as int) == k@);
            assert(!attachment_ok(list@[i as int]));
            return Err(ApiError::bad_request("Invalid fileAttachments"));
        }
        assert(k@.subrange(0, k@.len() as int) == k@);
        i = i + 1;
    }
    Ok(())
}

/// The JSON of an optional string: the string, or `null`.
pub open spec fn opt_str_json(s: Option<String>) -> Json {
    match s {
        Some(t) => Json::Str(t@),
        None => Json::Null,
    }
}

/// The members an attachment is stored as, in field order.
pub open spec fn attachment_members(a: FileAttachment) -> Seq<(Seq<char>, Json)> {
    seq![
        ("fileKey"@, Json::Str(a.file_key@)),
        ("fileName"@, Json::Str(a.file_name@)),
        ("contentType"@, opt_str_json(a.content_type)),
        ("sizeBytes"@, match a.size_bytes {
            Some(n) => Json::Number(int_decimal(n as int)),
            None => Json::Null,
        }),
    ]
}

fn attachment_json(a: FileAttachment) -> (v: JsonValue)
    ensures
        v matches JsonValue::Object(m) && members(m@) == attachment_members(a),
{
    let ghost g = a;
    let content = match a.content_type {
        Some(t) => JsonValue::String(t),
        None => JsonValue::Null,
    };
    let size = match a.size_bytes {
        Some(n) => {
            let mut d: Vec<char> = Vec::new();
            push_i64_decimal(&mut d, n);
            assert(d@ =~= int_decimal(n as int));
            JsonValue::Number(string_from(&d))
        },
        None => JsonValue::Null,
    };
    let mut m: Vec<(String, JsonValue)> = Vec::new();
    m.push((owned("fileKey"), JsonValue::String(a.file_key)));
    m.push((owned("fileName"), JsonValue::String(a.file_name)));
    m.push((owned("contentType"), content));
    m.push((owned("sizeBytes"), size));
    proof {
        lemma_members(m@);
        assert(members(m@) =~= attachment_members(g));
    }
    JsonValue::Object(m)
}

/// The stored form of a list of attachments: an array of their objects.
pub fn attachments_json(items: Vec<FileAttachment>) -> (v: JsonValue)
    ensures
        v matches JsonValue::Array(arr) && arr@.len() == items@.len() && forall|i: int|
            0 <= i < items@.len() ==> (#[trigger] arr@[i] matches JsonValue::Object(m) && members(
                m@,
            ) == attachment_members(items@[i])),
{
    let ghost orig = items@;
    let mut items = items;
    let mut out: Vec<JsonValue> = Vec::new();
    while items.len() > 0
        invariant
            out@.len() <= orig.len(),
            items@ == orig.skip(out@.len() as int),
            forall|i: int|
                0 <= i < out@.len() ==> (#[trigger] out@[i] matches JsonValue::Object(m) && members(
                    m@,
                ) == attachment_members(orig[i])),
        decreases items@.len(),
    {
        let ghost n = out@.len();
        let a = items.remove(0);
        assert(a == orig[n as int]);
        assert(orig.skip(n as int).remove(0) =~= orig.skip(n as int + 1));
        out.push(attachment_json(a));
    }
    JsonValue::Array(out)
}


/// A component write with its defaults applied.
#[derive(Debug)]
pub struct ComponentUpsert {
    pub component_type: String,
    pub metadata: JsonValue,
    pub file_attachments: JsonValue,
}

/// The stored form of an optional attachment list: their array, or `[]`.
pub open spec fn attachments_stored(v: JsonValue, items: Option<Seq<FileAttachment>>) -> bool {
    match items {
        Some(s) => v matches JsonValue::Array(arr) && arr@.len() == s.len() && forall|i: int|
            0 <= i < s.len() ==> (#[trigger] arr@[i] matches JsonValue::Object(m) && members(m@)
                == attachment_members(s[i])),
        None => v.deep() == Json::Array(Seq::empty()),
    }
}

fn stored_attachments(items: Option<Vec<FileAttachment>>) -> (v: JsonValue)
    ensures
        attachments_stored(
            v,
            match items {
                Some(s) => Some(s@),
                None => None,
            },
        ),
{
    match items {
        Some(list) => attachments_json(list),
        None => {
            let e: Vec<JsonValue> = Vec::new();
            proof {
                lemma_array_deep(e);
                assert(deep_seq(e@) =~= Seq::<Json>::empty());
            }
            JsonValue::Array(e)
        },
    }
}

/// The metadata object of a write: the given members, or `{}`.
pub open spec fn metadata_stored(v: JsonValue, metadata: Option<Seq<(String, JsonValue)>>) -> bool {
    match metadata {
        Some(m) => v matches JsonValue::Object(e) && e@ == m,
        None => v matches JsonValue::Object(e) && e@.len() == 0,
    }
}

fn stored_metadata(metadata: Option<Vec<(String, JsonValue)>>) -> (v: JsonValue)
    ensures
        metadata_stored(
            v,
            match metadata {
                Some(m) => Some(m@),
                None => None,
            },
        ),
{
    match metadata {
        Some(m) => JsonValue::Object(m),
        None => JsonValue::Object(Vec::new()),
    }
}

/// Checks a component write and applies its defaults: the component SN
/// must be an identifier and every attachment key usable; the type
/// defaults to `camera`, the metadata to `{}` and the attachments to `[]`.
pub fn prepare_component_upsert(component_sn: &str, req: UpsertComponentRequest) -> (r: Result<
    ComponentUpsert,
    ApiError,
>)
    ensures
        !valid_identifier(component_sn@) ==> fails_with(
            r,
            400,
            identifier_error(component_sn@, "componentSn"@),
        ),
        valid_identifier(component_sn@) && !attachments_ok(
            match req.file_attachments {
                Some(s) => Some(s@),
                None => None,
            },
        ) ==> fails_with(r, 400, "Invalid fileAttachments"@),
        r matches Ok(u) ==> valid_identifier(component_sn@) && attachments_ok(
            match req.file_attachments {
                Some(s) => Some(s@),
                None => None,
            },
        ) && u.component_type@ == (match req.component_type {
            Some(t) => t@,
            None => "camera"@,
        }) && metadata_stored(
            u.metadata,
            match req.metadata {
                Some(m) => Some(m@),
                None => None,
            },
        ) && attachments_stored(
            u.file_attachments,
            match req.file_attachments {
                Some(s) => Some(s@),
                None => None,
            },
        ),
        valid_identifier(component_sn@) && attachments_ok(
            match req.file_attachments {
                Some(s) => Some(s@),
                None => None,
            },
        ) ==> r is Ok,
{
    validate_identifier(component_sn, "componentSn")?;
    let checked = match &req.file_attachments {
        Some(v) => validate_file_attachments(Some(v.as_slice())),
        None => validate_file_attachments(None),
    };
    checked?;
    let component_type = match req.component_type {
        Some(t) => t,
        None => owned("camera"),
    };
    Ok(
        ComponentUpsert {
            component_type,
            metadata: stored_metadata(req.metadata),
            file_attachments: stored_attachments(req.file_attachments),
        },
    )
}

/// A device-level metadata write with its defaults applied.
#[derive(Debug)]
pub struct DeviceMetadataUpsert {
    pub metadata: JsonValue,
    pub file_attachments: JsonValue,
}

/// Checks a device-level metadata write and applies its defaults: the
/// device SN must be an identifier and every attachment key usable; the
/// metadata defaults to `{}` and the attachments to `[]`.
pub fn prepare_device_metadata_upsert(device_sn: &str, req: UpsertDeviceMetadataRequest) -> (r:
    Result<DeviceMetadataUpsert, ApiError>)
    ensures
        !valid_identifier(device_sn@) ==> fails_with(
            r,
            400,
            identifier_error(device_sn@, "deviceSn"@),
        ),
        valid_identifier(device_sn@) && !attachments_ok(
            match req.file_attachments {
                Some(s) => Some(s@),
                None => None,
            },
        ) ==> fails_with(r, 400, "Invalid fileAttachments"@),
        r matches Ok(u) ==> valid_identifier(device_sn@) && attachments_ok(
            match req.file_attachments {
                Some(s) => Some(s@),
                None => None,
            },
        ) && metadata_stored(
            u.metadata,
            match req.metadata {
                Some(m) => Some(m@),
                None => None,
            },
        ) && attachments_stored(
            u.file_attachments,
            match req.file_attachments {
                Some(s) => Some(s@),
                None => None,
            },
        ),
        valid_identifier(device_sn@) && attachments_ok(
            match req.file_attachments {
                Some(s) => Some(s@),
                None => None,
            },
        ) ==> r is Ok,
{
    validate_identifier(device_sn, "deviceSn")?;
    let checked = match &req.file_attachments {
        Some(v) => validate_file_attachments(Some(v.as_slice())),
        None => validate_file_attachments(None),
    };
    checked?;
    Ok(
        DeviceMetadataUpsert {
            metadata: stored_metadata(req.metadata),
            file_attachments: stored_attachments(req.file_attachments),
        },
    )
}

/// The first component SN of the list that is not an identifier.
pub open spec fn first_bad_component(items: Seq<ComponentAssociationItem>, i: int) -> bool {
    &&& 0 <= i < items.len()
    &&& !valid_identifier(items[i].component_sn@)
    &&& forall|j: int| 0 <= j < i ==> valid_identifier((#[trigger] items[j]).component_sn@)
}

/// Every component SN of the list is an identifier.
pub open spec fn all_components_valid(items: Seq<ComponentAssociationItem>) -> bool {
    forall|j: int| 0 <= j < items.len() ==> valid_identifier((#[trigger] items[j]).component_sn@)
}

/// Checks an association write: the device SN, then each component SN in
/// order, must be identifiers.
pub fn check_associations(device_sn: &str, req: &UpsertAssociationsRequest) -> (r: Result<
    (),
    ApiError,
>)
    ensures
        !valid_identifier(device_sn@) ==> fails_with(
            r,
            400,
            identifier_error(device_sn@, "deviceSn"@),
        ),
        valid_identifier(device_sn@) && all_components_valid(req.components@) ==> r is Ok,
        valid_identifier(device_sn@) ==> forall|i: int|
            first_bad_component(req.components@, i) ==> fails_with(
                r,
                400,
                identifier_error(#[trigger] req.components@[i].component_sn@, "componentSn"@),
            ),
{
    validate_identifier(device_sn, "deviceSn")?;
    let mut i: usize = 0;
    while i < req.components.len()
        invariant
            i <= req.components@.len(),
            valid_identifier(device_sn@),
            forall|j: int|
                0 <= j < i ==> valid_identifier((#[trigger] req.components@[j]).component_sn@),
        decreases req.components@.len() - i,
    {
        let r = validate_identifier(req.components[i].component_sn.as_str(), "componentSn");
        if r.is_err() {
            proof {
                assert forall|k: int| first_bad_component(req.components@, k) implies k == i by {
                    if k < i {
                        assert(valid_identifier(req.components@[k].component_sn@));
                    }
                    if k > i {
                        assert(valid_identifier(req.components@[i as int].component_sn@));
                    }
                }
            }
            return r;
        }
        i = i + 1;
    }
    Ok(())
}

// ---------------------------------------------------------------------------
// Merged device view
// ---------------------------------------------------------------------------

/// A component of a device as stored: its association joined with its
/// metadata, when that has arrived.
#[derive(Debug)]
pub struct FactoryDeviceViewRow {
    pub component_sn: String,
    /// The type in the metadata table.
    pub meta_type: Option<String>,
    /// The type hint of the association.
    pub assoc_type: Option<String>,
    pub metadata: Option<JsonValue>,
    pub file_attachments: Option<JsonValue>,
    pub updated_at: Option<OffsetDateTime>,
}

/// A device's own stored metadata.
#[derive(Debug)]
pub struct FactoryDeviceMetadataRow {
    pub metadata: Option<JsonValue>,
    pub file_attachments: Option<JsonValue>,
    pub updated_at: Option<OffsetDateTime>,
}

/// A component in the merged view.
#[derive(Debug)]
pub struct FactoryComponentView {
    pub component_sn: String,
    pub component_type: Option<String>,
    pub metadata: Option<JsonValue>,
    pub file_attachments: Vec<JsonValue>,
    pub updated_at: Option<OffsetDateTime>,
}

/// A device's own metadata in the merged view.
#[derive(Debug)]
pub struct FactoryDeviceMetadataView {
    pub metadata: Option<JsonValue>,
    pub file_attachments: Vec<JsonValue>,
    pub updated_at: Option<OffsetDateTime>,
}

/// The merged view of a device.
#[derive(Debug)]
pub struct FactoryDeviceView {
    pub device_sn: String,
    pub device_metadata: Option<FactoryDeviceMetadataView>,
    pub components: Vec<FactoryComponentView>,
}

/// The attachment list shown for a stored value: an array as it is,
/// nothing for `null` or no value, and any other value as a list of one.
pub open spec fn normalised_attachments(v: Option<JsonValue>) -> Seq<Json> {
    match v {
        Some(x) => match x.deep() {
            Json::Array(s) => s,
            Json::Null => Seq::empty(),
            other => seq![other],
        },
        None => Seq::empty(),
    }
}

/// The attachment list shown for a stored value.
pub fn normalise_file_attachments(v: Option<JsonValue>) -> (r: Vec<JsonValue>)
    ensures
        deep_seq(r@) == normalised_attachments(v),
{
    match v {
        Some(JsonValue::Array(arr)) => {
            proof {
                lemma_array_deep(arr);
            }
            arr
        },
        Some(JsonValue::Null) => {
            let e: Vec<JsonValue> = Vec::new();
            assert(deep_seq(e@) =~= Seq::<Json>::empty());
            e
        },
        Some(x) => {
            let ghost d = x.deep();
            let mut out: Vec<JsonValue> = Vec::new();
            out.push(x);
            proof {
                lemma_deep_seq(out@);
                assert(deep_seq(out@) =~= seq![d]);
            }
            out
        },
        None => {
            let e: Vec<JsonValue> = Vec::new();
            assert(deep_seq(e@) =~= Seq::<Json>::empty());
            e
        },
    }
}

/// `v` shows component row `row`: the same serial number, the metadata
/// table's type when it has one (else the association's), the same
/// metadata and time, and the attachments normalised to a list.
pub open spec fn component_shown(v: FactoryComponentView, row: FactoryDeviceViewRow) -> bool {
    &&& v.component_sn == row.component_sn
    &&& v.component_type == (if row.meta_type is Some {
        row.meta_type
    } else {
        row.assoc_type
    })
    &&& v.metadata == row.metadata
    &&& deep_seq(v.file_attachments@) == normalised_attachments(row.file_attachments)
    &&& v.updated_at == row.updated_at
}

/// `v` shows the device's own metadata row `row`: the same metadata and
/// time, and the attachments normalised to a list.
pub open spec fn device_metadata_shown(v: FactoryDeviceMetadataView, row: FactoryDeviceMetadataRow) -> bool {
    &&& v.metadata == row.metadata
    &&& deep_seq(v.file_attachments@) == normalised_attachments(row.file_attachments)
    &&& v.updated_at == row.updated_at
}

/// `view` is the merged view of device `device_sn` from its component rows
/// `rows`, in order, and its own metadata row.
pub open spec fn merged_view(
    view: FactoryDeviceView,
    device_sn: String,
    rows: Seq<FactoryDeviceViewRow>,
    metadata: Option<FactoryDeviceMetadataRow>,
) -> bool {
    &&& view.device_sn == device_sn
    &&& view.components@.len() == rows.len()
    &&& forall|i: int| 0 <= i < rows.len() ==> component_shown(#[trigger] view.components@[i], rows[i])
    &&& match metadata {
        Some(m) => view.device_metadata matches Some(d) && device_metadata_shown(d, m),
        None => view.device_metadata is None,
    }
}

/// A component row as shown: the metadata table's type wins over the
/// association's hint.
pub fn map_row_to_component_view(row: FactoryDeviceViewRow) -> (v: FactoryComponentView)
    ensures
        component_shown(v, row),
{
    let component_type = if row.meta_type.is_some() {
        row.meta_type
    } else {
        row.assoc_type
    };
    FactoryComponentView {
        component_sn: row.component_sn,
        component_type,
        metadata: row.metadata,
        file_attachments: normalise_file_attachments(row.file_attachments),
        updated_at: row.updated_at,
    }
}

/// A device's own metadata row as shown.
pub fn map_row_to_device_metadata_view(row: FactoryDeviceMetadataRow) -> (v:
    FactoryDeviceMetadataView)
    ensures
        device_metadata_shown(v, row),
{
    FactoryDeviceMetadataView {
        metadata: row.metadata,
        file_attachments: normalise_file_attachments(row.file_attachments),
        updated_at: row.updated_at,
    }
}

/// The merged view of a device from its component rows (`None` when it
/// has neither components nor metadata, which is a 404) and its own
/// metadata row.
pub fn device_view(
    device_sn: String,
    rows: Option<Vec<FactoryDeviceViewRow>>,
    metadata: Option<FactoryDeviceMetadataRow>,
) -> (r: Result<FactoryDeviceView, ApiError>)
    ensures
        rows is None ==> fails_with(r, 404, "Device has no factory metadata"@),
        rows matches Some(rs) ==> r matches Ok(view) && merged_view(view, device_sn, rs@, metadata),
{
    let rows = match rows {
        Some(rs) => rs,
        None => {
            return Err(ApiError::not_found("Device has no factory metadata"));
        },
    };
    let ghost orig = rows@;
    let mut rows = rows;
    let mut components: Vec<FactoryComponentView> = Vec::new();
    while rows.len() > 0
        invariant
            components@.len() <= orig.len(),
            rows@ == orig.skip(components@.len() as int),
            forall|i: int|
                0 <= i < components@.len() ==> component_shown(#[trigger] components@[i], orig[i]),
        decreases rows@.len(),
    {
        let ghost n = components@.len();
        let row = rows.remove(0);
        assert(row == orig[n as int]);
        assert(orig.skip(n as int).remove(0) =~= orig.skip(n as int + 1));
        components.push(map_row_to_component_view(row));
    }
    let device_metadata = match metadata {
        Some(m) => Some(map_row_to_device_metadata_view(m)),
        None => None,
    };
    Ok(FactoryDeviceView { device_sn, device_metadata, components })
}

/// What a device pulling its production-line data receives: its merged
/// view, or nothing when it has neither components nor metadata.
pub fn pull_view(
    device_id: String,
    rows: Option<Vec<FactoryDeviceViewRow>>,
    metadata: Option<FactoryDeviceMetadataRow>,
) -> (r: Option<FactoryDeviceView>)
    ensures
        r is None <==> rows is None,
        r matches Some(view) ==> merged_view(view, device_id, rows->0@, metadata),
{
    if rows.is_none() {
        return None;
    }
    match device_view(device_id, rows, metadata) {
        Ok(v) => Some(v),
        Err(_) => None,
    }
}

/// The page and page size of a change-log query: the page is clamped to
/// 1..=`u32::MAX` and the size to 1..=1000.
pub fn change_log_page(page: i64, page_size: i64) -> (r: (u32, u32))
    ensures
        r.0 == (if page < 1 {
            1
        } else if page > u32::MAX {
            u32::MAX as int
        } else {
            page as int
        }),
        r.0 >= 1,
        r.1 == (if page_size < 1 {
            1
        } else if page_size > 1000 {
            1000
        } else {
            page_size
        }),
{
    let p: u32 = if page < 1 {
        1
    } else if page > 0xFFFF_FFFF {
        0xFFFF_FFFF
    } else {
        page as u32
    };
    let s: i64 = if page_size < 1 {
        1
    } else if page_size > 1000 {
        1000
    } else {
        page_size
    };
    (p, s as u32)
}

} // verus!
