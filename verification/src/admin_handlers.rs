//! Administrative request logic: file keys, shadow documents and the
//! schema cache keys of validation templates.
use crate::error::bad_request_outcome;
use crate::error::fails_with;
use crate::error::ApiError;
use crate::json::json_clone;
use crate::json::lemma_entries_map;
use crate::json::lemma_members;
use crate::json::lemma_object_deep;
use crate::json::members;
use crate::json::object_map;
use crate::json::Json;
use crate::json::JsonValue;
use crate::admin_models::CreatePropertyCommandRequest;
use crate::admin_models::SetDesiredRequest;
use crate::admin_models::ShadowView;
use crate::handlers::check_upload_directory;
use crate::handlers::directory_allowed;
use crate::handlers::is_file_upload_directory_allowed;
use crate::handlers::string_views;
use crate::text::is_ascii_alnum;
use crate::utils::identifier_error;
use crate::utils::valid_identifier;
use crate::utils::validate_identifier;
use crate::schema::meta_schema_error;
use crate::schema::meta_schema_error_of;
use crate::shadow::compute_delta;
use crate::shadow::delta_of;
use crate::text::chars_eq;
use crate::text::chars_of;
use crate::text::contains_run;
use crate::text::contains_run_exec;
use crate::text::extend_chars;
use crate::text::find_last;
use crate::text::opt_view;
use crate::text::last_index_of;
use crate::text::split_chars;
use crate::text::split_on;
use crate::text::string_from;
use crate::text::string_of;
use crate::text::utf8_len;
use crate::text::utf8_len_exceeds;
use crate::text::views;
use time::OffsetDateTime;
use vstd::prelude::*;

verus! {

/// Query of the download-URL endpoint: the object key of an attachment.
#[derive(Debug)]
pub struct FileDownloadUrlQuery {
    pub file_key: String,
}

/// A presigned download URL and how long it stays valid.
#[derive(Debug)]
pub struct FileDownloadUrlResponse {
    pub url: String,
    pub expires_in_seconds: u64,
}

/// Ids of the property commands to delete.
#[derive(Debug)]
pub struct DeletePropertyCommandsQuery {
    pub ids: Vec<i64>,
}

/// A file key is refused when it is empty, longer than 1024 bytes,
/// absolute, or has a `..` path segment.
pub open spec fn file_key_refused(k: Seq<char>) -> bool {
    ||| k.len() == 0
    ||| utf8_len(k) > 1024
    ||| k[0] == '/'
    ||| split_on(k, '/').contains(".."@)
}

/// Checks a download file key against path traversal.
pub fn validate_file_key(file_key: &str) -> (r: Result<(), ApiError>)
    ensures
        r is Ok <==> !file_key_refused(file_key@),
        r is Err ==> fails_with(r, 400, "Invalid fileKey"@),
{
    let v = chars_of(file_key);
    if v.len() == 0 {
        return Err(ApiError::bad_request("Invalid fileKey"));
    }
    if utf8_len_exceeds(&v, 0, v.len(), 1024) {
        assert(v@.subrange(0, v@.len() as int) == v@);
        return Err(ApiError::bad_request("Invalid fileKey"));
    }
    assert(v@.subrange(0, v@.len() as int) == v@);
    if v[0] == '/' {
        return Err(ApiError::bad_request("Invalid fileKey"));
    }
    let parts = split_chars(&v, '/');
    let dotdot = chars_of("..");
    let mut i: usize = 0;
    while i < parts.len()
        invariant
            i <= parts@.len(),
            views(parts@) == split_on(v@, '/'),
            dotdot@ == ".."@,
            v@ == file_key@,
            forall|j: int| 0 <= j < i ==> views(parts@)[j] != ".."@,
        decreases parts@.len() - i,
    {
        if chars_eq(&parts[i], &dotdot) {
            assert(split_on(v@, '/')[i as int] == ".."@);
            assert(split_on(v@, '/').contains(".."@));
            return Err(ApiError::bad_request("Invalid fileKey"));
        }
        i = i + 1;
    }
    Ok(())
}

/// The directory of a file key: the text before its last `/`, or the empty
/// string when it has none.
pub open spec fn key_directory(k: Seq<char>) -> Seq<char> {
    if exists|i: int| last_index_of(k, '/', i) {
        k.take(choose|i: int| last_index_of(k, '/', i))
    } else {
        Seq::empty()
    }
}

/// The directory part of a file key.
pub fn file_key_directory(file_key: &str) -> (d: String)
    ensures
        d@ == key_directory(file_key@),
{
    let v = chars_of(file_key);
    match find_last(&v, '/') {
        Some(i) => {
            proof {
                let j = choose|j: int| last_index_of(file_key@, '/', j);
                if j < i {
                    assert(v@[j] != '/');
                }
                if i < j {
                    assert(v@[i as int] != '/');
                }
            }
            string_of(&v, 0, i)
        },
        None => String::new(),
    }
}

// ---------------------------------------------------------------------------
// Shadow documents
// ---------------------------------------------------------------------------

/// The properties of a document: its map when it is an object, otherwise
/// nothing.
pub open spec fn doc_map(j: Json) -> Map<Seq<char>, Json> {
    match j {
        Json::Object(m) => m,
        _ => Map::empty(),
    }
}

/// The members of a document when it is an object, otherwise none.
fn object_members(v: &JsonValue) -> (r: Vec<(String, JsonValue)>)
    ensures
        object_map(r@) == doc_map(v.deep()),
{
    match v {
        JsonValue::Object(m) => {
            proof {
                lemma_object_deep(*m);
            }
            match json_clone(v) {
                JsonValue::Object(c) => {
                    proof {
                        lemma_object_deep(c);
                    }
                    c
                },
                _ => {
                    proof {
                        lemma_object_deep(*m);
                    }
                    Vec::new()
                },
            }
        },
        _ => {
            let r: Vec<(String, JsonValue)> = Vec::new();
            assert(object_map(r@) =~= Map::<Seq<char>, Json>::empty()) by {
                assert(members(r@) =~= Seq::<(Seq<char>, Json)>::empty());
            }
            r
        },
    }
}

proof fn lemma_object_map_empty(s: Seq<(String, JsonValue)>)
    ensures
        (object_map(s) == Map::<Seq<char>, Json>::empty()) <==> s.len() == 0,
{
    lemma_members(s);
    if s.len() == 0 {
        assert(members(s) =~= Seq::<(Seq<char>, Json)>::empty());
    } else {
        lemma_entries_map(members(s), s[0].0@);
        assert(members(s)[0].0 == s[0].0@);
        assert(object_map(s).dom().contains(s[0].0@));
    }
}

/// Rejects an empty Set-Desired patch; a patch with only `null` values is
/// accepted since it deletes keys.
pub fn check_desired_patch(desired: &Vec<(String, JsonValue)>) -> (r: Result<(), ApiError>)
    ensures
        r is Ok <==> desired@.len() > 0,
        r is Err ==> fails_with(r, 400, "desired must be a non-empty JSON object"@),
{
    if desired.len() == 0 {
        return Err(ApiError::bad_request("desired must be a non-empty JSON object"));
    }
    Ok(())
}

/// After a Set-Desired write: the delta of the merged desired document
/// against the reported snapshot, and whether it must be pushed (exactly
/// when it is not empty).
pub fn desired_write_delta(merged_desired: &JsonValue, reported: Option<&JsonValue>) -> (r: (
    JsonValue,
    bool,
))
    ensures
        r.0.deep() == Json::Object(
            delta_of(
                doc_map(merged_desired.deep()),
                match reported {
                    Some(p) => doc_map(p.deep()),
                    None => Map::empty(),
                },
            ),
        ),
        r.1 == (delta_of(
            doc_map(merged_desired.deep()),
            match reported {
                Some(p) => doc_map(p.deep()),
                None => Map::empty(),
            },
        ) != Map::<Seq<char>, Json>::empty()),
{
    let d = object_members(merged_desired);
    let rep: Vec<(String, JsonValue)> = match reported {
        Some(p) => object_members(p),
        None => {
            let e: Vec<(String, JsonValue)> = Vec::new();
            proof {
                lemma_object_map_empty(e@);
            }
            e
        },
    };
    let delta = compute_delta(&d, &rep);
    let pushed = delta.len() > 0;
    proof {
        lemma_object_map_empty(delta@);
        lemma_object_deep(delta);
    }
    (JsonValue::Object(delta), pushed)
}

/// The Get-Delta documents: the desired document and reported snapshot (an
/// empty object when absent) and their delta.
pub fn shadow_documents(desired: Option<JsonValue>, reported: Option<JsonValue>) -> (r: (
    JsonValue,
    JsonValue,
    JsonValue,
))
    ensures
        r.0.deep() == match desired {
            Some(d) => d.deep(),
            None => Json::Object(Map::empty()),
        },
        r.1.deep() == match reported {
            Some(p) => p.deep(),
            None => Json::Object(Map::empty()),
        },
        r.2.deep() == Json::Object(delta_of(doc_map(r.0.deep()), doc_map(r.1.deep()))),
{
    let d = match desired {
        Some(d) => d,
        None => {
            let e: Vec<(String, JsonValue)> = Vec::new();
            proof {
                lemma_object_map_empty(e@);
                lemma_object_deep(e);
            }
            JsonValue::Object(e)
        },
    };
    let p = match reported {
        Some(p) => p,
        None => {
            let e: Vec<(String, JsonValue)> = Vec::new();
            proof {
                lemma_object_map_empty(e@);
                lemma_object_deep(e);
            }
            JsonValue::Object(e)
        },
    };
    let dm = object_members(&d);
    let pm = object_members(&p);
    let delta = compute_delta(&dm, &pm);
    proof {
        lemma_object_deep(delta);
    }
    (d, p, JsonValue::Object(delta))
}

/// The Get-Delta answer: the shadow documents of `shadow_documents`, each
/// with the time its row was last written (none when there is no row).
pub fn shadow_view(
    desired: Option<(JsonValue, OffsetDateTime)>,
    reported: Option<(JsonValue, OffsetDateTime)>,
) -> (v: ShadowView)
    ensures
        v.desired.deep() == match desired {
            Some((d, _)) => d.deep(),
            None => Json::Object(Map::empty()),
        },
        v.reported.deep() == match reported {
            Some((p, _)) => p.deep(),
            None => Json::Object(Map::empty()),
        },
        v.delta.deep() == Json::Object(delta_of(doc_map(v.desired.deep()), doc_map(v.reported.deep()))),
        v.desired_updated_time == match desired {
            Some((_, t)) => Some(t),
            None => None::<OffsetDateTime>,
        },
        v.reported_updated_time == match reported {
            Some((_, t)) => Some(t),
            None => None::<OffsetDateTime>,
        },
{
    let (desired_doc, desired_updated_time) = match desired {
        Some((d, t)) => (Some(d), Some(t)),
        None => (None, None),
    };
    let (reported_doc, reported_updated_time) = match reported {
        Some((p, t)) => (Some(p), Some(t)),
        None => (None, None),
    };
    let (d, p, delta) = shadow_documents(desired_doc, reported_doc);
    ShadowView { desired: d, reported: p, delta, desired_updated_time, reported_updated_time }
}

/// Rejects a `null` property command.
pub fn check_property_command(command: &JsonValue) -> (r: Result<(), ApiError>)
    ensures
        r is Ok <==> !(command.deep() is Null),
        r is Err ==> fails_with(r, 400, "command cannot be null"@),
{
    if command.is_null() {
        return Err(ApiError::bad_request("command cannot be null"));
    }
    Ok(())
}

// ---------------------------------------------------------------------------
// Schema cache keys of validation templates
// ---------------------------------------------------------------------------

/// The cache key under which the schema of an event is loaded:
/// `event:{product_id}:{event}`.
pub open spec fn event_schema_key(product_id: Seq<char>, event: Seq<char>) -> Seq<char> {
    "event:"@ + product_id + ":"@ + event
}

/// The cache key a template occupies: a property template is cached under
/// its product id, any other template under its event key.
pub open spec fn template_key(product_id: Seq<char>, event: Seq<char>) -> Seq<char> {
    if event == "property"@ {
        product_id
    } else {
        event_schema_key(product_id, event)
    }
}

/// The cache key under which an event's schema is loaded.
pub fn event_schema_cache_key(product_id: &str, event_identifier: &str) -> (k: String)
    ensures
        k@ == event_schema_key(product_id@, event_identifier@),
{
    let mut v = chars_of("event:");
    let p = chars_of(product_id);
    let c = chars_of(":");
    let e = chars_of(event_identifier);
    extend_chars(&mut v, &p);
    extend_chars(&mut v, &c);
    extend_chars(&mut v, &e);
    string_from(&v)
}

/// The cache key to invalidate when a template changes or is deleted.
pub fn template_cache_key(product_id: &str, event: &str) -> (k: String)
    ensures
        k@ == template_key(product_id@, event@),
{
    let e = chars_of(event);
    let property = chars_of("property");
    if chars_eq(&e, &property) {
        let p = chars_of(product_id);
        string_from(&p)
    } else {
        event_schema_cache_key(product_id, event)
    }
}

/// The cache key a template write must invalidate: `None` when the
/// template was not found beforehand; a write that changed no row is a 404
/// with `not_found` as its message.
pub fn template_change_outcome(
    rows_affected: u64,
    template: Option<(&str, &str)>,
    not_found: &str,
) -> (r: Result<Option<String>, ApiError>)
    ensures
        rows_affected == 0 ==> fails_with(r, 404, not_found@),
        rows_affected > 0 ==> (r matches Ok(k) && match template {
            Some((p, e)) => (k matches Some(key) && key@ == template_key(p@, e@)),
            None => k is None,
        }),
{
    if rows_affected == 0 {
        return Err(ApiError::not_found(not_found));
    }
    match template {
        Some((p, e)) => Ok(Some(template_cache_key(p, e))),
        None => Ok(None),
    }
}

/// The message of a template schema that breaks its meta-schema.
pub open spec fn invalid_schema_message(error: Seq<char>) -> Seq<char> {
    "Invalid JSON schema: "@ + error
}

/// The error a template schema is refused with, given the meta-schema's
/// first error about it.
pub open spec fn schema_refusal(error: Option<Seq<char>>) -> Option<Seq<char>> {
    match error {
        Some(e) => Some(invalid_schema_message(e)),
        None => None,
    }
}

/// What a template schema's meta-schema check gives, from the first error
/// found (`None` when there is none): a 400 naming it, or acceptance.
pub fn check_schema_error(error: Option<String>) -> (r: Result<(), ApiError>)
    ensures
        bad_request_outcome(r, schema_refusal(opt_view(error))),
{
    match error {
        None => Ok(()),
        Some(e) => {
            let mut v = chars_of("Invalid JSON schema: ");
            let t = chars_of(e.as_str());
            extend_chars(&mut v, &t);
            Err(ApiError::bad_request_owned(string_from(&v)))
        },
    }
}

/// Checks a template schema against its meta-schema.
pub fn check_template_schema(schema: &JsonValue) -> (r: Result<(), ApiError>)
    ensures
        bad_request_outcome(r, schema_refusal(meta_schema_error_of(schema@))),
{
    let error = meta_schema_error(schema);
    check_schema_error(error)
}

/// Checks a new template: its product id must be an identifier, then its
/// schema must obey its meta-schema.
pub fn check_new_template(product_id: &str, schema: &JsonValue) -> (r: Result<(), ApiError>)
    ensures
        !valid_identifier(product_id@) ==> fails_with(
            r,
            400,
            identifier_error(product_id@, "product_id"@),
        ),
        valid_identifier(product_id@) ==> bad_request_outcome(
            r,
            schema_refusal(meta_schema_error_of(schema@)),
        ),
{
    validate_identifier(product_id, "product_id")?;
    check_template_schema(schema)
}

/// Checks the schema of a template update, when it gives one.
pub fn check_template_update(schema: Option<&JsonValue>) -> (r: Result<(), ApiError>)
    ensures
        match schema {
            None => r is Ok,
            Some(s) => bad_request_outcome(r, schema_refusal(meta_schema_error_of(s@))),
        },
{
    match schema {
        None => Ok(()),
        Some(s) => check_template_schema(s),
    }
}

/// The response to a failed template update, from the database error's
/// text: an error naming `active_schema_marker` (the database refuses to
/// change the schema of an active template) is a 400 carrying that text;
/// any other is the uniform 500.
pub fn template_update_error(db_message: &str, active_schema_marker: &str) -> (e: ApiError)
    ensures
        contains_run(db_message@, active_schema_marker@) ==> e.is(400, db_message@),
        !contains_run(db_message@, active_schema_marker@) ==> e.is(
            500,
            "Database operation failed"@,
        ),
{
    let m = chars_of(db_message);
    let k = chars_of(active_schema_marker);
    if contains_run_exec(&m, &k) {
        ApiError::bad_request(db_message)
    } else {
        ApiError::internal("Database operation failed")
    }
}

proof fn lemma_identifier_no_colon(s: Seq<char>)
    requires
        valid_identifier(s),
    ensures
        forall|i: int| 0 <= i < s.len() ==> s[i] != ':',
{
    assert forall|i: int| 0 <= i < s.len() implies s[i] != ':' by {
        assert(is_ascii_alnum(s[i]) || s[i] == '-' || s[i] == '_');
    }
}

/// Event schemas of different templates never share a cache key: for
/// product ids that are identifiers, the key determines the product and
/// the event.
pub proof fn law_event_keys_distinct(p1: Seq<char>, e1: Seq<char>, p2: Seq<char>, e2: Seq<char>)
    requires
        valid_identifier(p1),
        valid_identifier(p2),
        event_schema_key(p1, e1) == event_schema_key(p2, e2),
    ensures
        p1 == p2,
        e1 == e2,
{
    reveal_strlit("event:");
    reveal_strlit(":");
    let prefix = "event:"@;
    let k1 = event_schema_key(p1, e1);
    let k2 = event_schema_key(p2, e2);
    lemma_identifier_no_colon(p1);
    lemma_identifier_no_colon(p2);
    assert(k1 =~= prefix + p1 + seq![':'] + e1);
    assert(k2 =~= prefix + p2 + seq![':'] + e2);
    if p1.len() < p2.len() {
        assert(k1[6 + p1.len() as int] == ':');
        assert(k2[6 + p1.len() as int] == p2[p1.len() as int]);
    } else if p2.len() < p1.len() {
        assert(k2[6 + p2.len() as int] == ':');
        assert(k1[6 + p2.len() as int] == p1[p2.len() as int]);
    } else {
        assert forall|i: int| 0 <= i < p1.len() implies p1[i] == p2[i] by {
            assert(k1[6 + i] == p1[i]);
            assert(k2[6 + i] == p2[i]);
        }
        assert(p1 =~= p2);
        assert forall|i: int| 0 <= i < e1.len() implies e1[i] == e2[i] by {
            assert(k1[7 + p1.len() as int + i] == e1[i]);
            assert(k2[7 + p2.len() as int + i] == e2[i]);
        }
        assert(e1 =~= e2);
    }
}

/// A property schema, cached under its product id, never shares a key
/// with an event schema when the product id is an identifier.
pub proof fn law_property_key_not_event_key(product_id: Seq<char>, p: Seq<char>, e: Seq<char>)
    requires
        valid_identifier(product_id),
    ensures
        product_id != event_schema_key(p, e),
{
    reveal_strlit("event:");
    reveal_strlit(":");
    lemma_identifier_no_colon(product_id);
    let k = event_schema_key(p, e);
    assert(k[5] == ':');
    if product_id == k {
        assert(product_id[5] == ':');
    }
}

/// Changing or deleting a template invalidates the key its schema is
/// loaded under: a property template's product id, or an event
/// template's event key.
pub proof fn law_invalidation_hits_loaded_key(p: Seq<char>, e: Seq<char>)
    ensures
        e == "property"@ ==> template_key(p, e) == p,
        e != "property"@ ==> template_key(p, e) == event_schema_key(p, e),
{
}

/// The checks of a download-URL request: the key must pass the traversal
/// check (400), storage must be configured (503), and the key's directory
/// must be admitted by the upload rules without product or device (403).
pub open spec fn download_error(file_key: Seq<char>, rules: Option<Seq<Seq<char>>>) -> Option<
    (u16, Seq<char>),
> {
    if file_key_refused(file_key) {
        Some((400u16, "Invalid fileKey"@))
    } else {
        match rules {
            None => Some((503u16, "S3 client not configured"@)),
            Some(rs) => if directory_allowed(rs, Seq::empty(), Seq::empty(), key_directory(file_key)) {
                None
            } else {
                Some((403u16, "Directory not allowed"@))
            },
        }
    }
}

/// Checks a download-URL request against the configured upload rules
/// (`None` when storage is not configured).
pub fn check_download_request(file_key: &str, rules: Option<&[String]>) -> (r: Result<
    (),
    ApiError,
>)
    ensures
        match download_error(
            file_key@,
            match rules {
                Some(rs) => Some(string_views(rs@)),
                None => None,
            },
        ) {
            Some((code, m)) => fails_with(r, code, m),
            None => r is Ok,
        },
{
    validate_file_key(file_key)?;
    let directory = file_key_directory(file_key);
    let rs = match rules {
        Some(rs) => rs,
        None => {
            return Err(ApiError::service_unavailable("S3 client not configured"));
        },
    };
    proof {
        reveal_strlit("");
        assert(""@ =~= Seq::<char>::empty());
    }
    if !is_file_upload_directory_allowed(rs, "", "", directory.as_str()) {
        return Err(ApiError::forbidden_with("Directory not allowed"));
    }
    Ok(())
}

/// The checks of an admin upload: storage must be configured (500 here,
/// as the admin path reports it) and the directory admitted by the rules
/// without product or device (400).
pub fn check_admin_upload(rules: Option<&[String]>, directory: &str) -> (r: Result<(), ApiError>)
    ensures
        rules is None ==> fails_with(r, 500, "S3 client not configured"@),
        rules matches Some(rs) ==> (if directory_allowed(
            string_views(rs@),
            Seq::empty(),
            Seq::empty(),
            directory@,
        ) {
            r is Ok
        } else {
            fails_with(r, 400, "Directory not allowed"@)
        }),
{
    let rs = match rules {
        Some(rs) => rs,
        None => {
            return Err(ApiError::internal("S3 client not configured"));
        },
    };
    proof {
        reveal_strlit("");
        assert(""@ =~= Seq::<char>::empty());
    }
    check_upload_directory(rs, "", "", directory)
}

/// The checks of a property command: both ids are identifiers and the
/// command is not `null`.
pub fn validate_property_command(req: &CreatePropertyCommandRequest) -> (r: Result<(), ApiError>)
    ensures
        !valid_identifier(req.product_id@) ==> fails_with(
            r,
            400,
            identifier_error(req.product_id@, "product_id"@),
        ),
        valid_identifier(req.product_id@) && !valid_identifier(req.device_id@) ==> fails_with(
            r,
            400,
            identifier_error(req.device_id@, "device_id"@),
        ),
        valid_identifier(req.product_id@) && valid_identifier(req.device_id@) ==> (if req.command.deep() is Null {
            fails_with(r, 400, "command cannot be null"@)
        } else {
            r is Ok
        }),
{
    validate_identifier(req.product_id.as_str(), "product_id")?;
    validate_identifier(req.device_id.as_str(), "device_id")?;
    check_property_command(&req.command)
}

/// The checks of a Set-Desired request: both ids are identifiers and the
/// patch is not empty.
pub fn validate_set_desired(req: &SetDesiredRequest) -> (r: Result<(), ApiError>)
    ensures
        !valid_identifier(req.product_id@) ==> fails_with(
            r,
            400,
            identifier_error(req.product_id@, "product_id"@),
        ),
        valid_identifier(req.product_id@) && !valid_identifier(req.device_id@) ==> fails_with(
            r,
            400,
            identifier_error(req.device_id@, "device_id"@),
        ),
        valid_identifier(req.product_id@) && valid_identifier(req.device_id@) ==> (if req.desired@.len() == 0 {
            fails_with(r, 400, "desired must be a non-empty JSON object"@)
        } else {
            r is Ok
        }),
{
    validate_identifier(req.product_id.as_str(), "product_id")?;
    validate_identifier(req.device_id.as_str(), "device_id")?;
    check_desired_patch(&req.desired)
}

} // verus!
