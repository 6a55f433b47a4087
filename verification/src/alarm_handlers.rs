//! Decisions of the alarm-rule and alarm endpoints: which requests are
//! refused, how listing filters are read, and the alarm life cycle
//! (`active` -> `acknowledged` -> `cleared`).
use crate::alarm_models::alarm_status_error;
use crate::alarm_models::create_rule_error;
use crate::alarm_models::validate_create_rule_request;
use crate::alarm_models::validate_alarm_status;
use crate::alarm_models::AlarmQuery;
use crate::alarm_models::AlarmRule;
use crate::alarm_models::CreateAlarmRuleRequest;
use crate::alarm_models::UpdateAlarmRuleRequest;
use crate::error::bad_request_outcome;
use crate::error::fails_with;
use crate::error::ApiError;
use crate::json::JsonValue;
use crate::text::chars_of;
use crate::text::concat3;
use crate::text::opt_view;
use crate::text::owned;
use crate::text::str_eq_chars;
use time::OffsetDateTime;
use vstd::prelude::*;

verus! {

#[verifier::external_type_specification]
#[verifier::external_body]
pub struct ExOffsetDateTime(OffsetDateTime);

// ---------------------------------------------------------------------------
// Alarm levels
// ---------------------------------------------------------------------------

/// The stored level of a level name.
pub open spec fn level_of(s: Seq<char>) -> Option<i16> {
    if s == "info"@ {
        Some(0)
    } else if s == "warning"@ {
        Some(1)
    } else if s == "critical"@ {
        Some(2)
    } else {
        None
    }
}

/// The name of a stored level; every level above `warning` is critical.
pub open spec fn level_label(level: i16) -> Seq<char> {
    if level == 0 {
        "info"@
    } else if level == 1 {
        "warning"@
    } else {
        "critical"@
    }
}

/// Reads a level name: `info`, `warning` or `critical`.
pub fn parse_level(level_str: &str) -> (r: Option<i16>)
    ensures
        r == level_of(level_str@),
{
    let v = chars_of(level_str);
    if str_eq_chars("info", &v) {
        Some(0)
    } else if str_eq_chars("warning", &v) {
        Some(1)
    } else if str_eq_chars("critical", &v) {
        Some(2)
    } else {
        None
    }
}

/// The name of a stored level.
pub fn level_name(level: i16) -> (s: String)
    ensures
        s@ == level_label(level),
{
    if level == 0 {
        owned("info")
    } else if level == 1 {
        owned("warning")
    } else {
        owned("critical")
    }
}

/// Reading back the name of a stored level gives that level.
pub proof fn law_level_round_trip(level: i16)
    requires
        0 <= level <= 2,
    ensures
        level_of(level_label(level)) == Some(level),
{
    reveal_strlit("info");
    reveal_strlit("warning");
    reveal_strlit("critical");
    assert("info"@.len() == 4 && "warning"@.len() == 7 && "critical"@.len() == 8);
}

/// The name of a read level is the name that was read.
pub proof fn law_level_name_round_trip(s: Seq<char>)
    requires
        level_of(s) is Some,
    ensures
        level_label(level_of(s)->0) == s,
{
    reveal_strlit("info");
    reveal_strlit("warning");
    reveal_strlit("critical");
    assert("info"@.len() == 4 && "warning"@.len() == 7 && "critical"@.len() == 8);
}

/// The webhook outcome of an alarm: none when no webhook ran, `success`
/// for the stored code 0 and `failed` for any other.
pub open spec fn webhook_label(w: Option<i16>) -> Option<Seq<char>> {
    match w {
        None => None,
        Some(c) => if c == 0 {
            Some("success"@)
        } else {
            Some("failed"@)
        },
    }
}

// ---------------------------------------------------------------------------
// Alarm records
// ---------------------------------------------------------------------------

/// A point in time as plain numbers: nanoseconds since the Unix epoch,
/// and the UTC offset it is written in, in seconds east of UTC.
#[derive(Clone, Copy, Debug, PartialEq, Eq, Structural)]
pub struct Timestamp {
    pub unix_nanos: i128,
    pub offset_seconds: i32,
}

/// A stored alarm.
#[derive(Debug)]
pub struct AlarmRecord {
    pub id: i64,
    pub rule_id: i64,
    pub rule_name: String,
    pub product_id: String,
    pub device_id: String,
    /// 0 info, 1 warning, 2 critical.
    pub level: i16,
    pub message: Option<String>,
    pub trigger_value: Option<JsonValue>,
    /// `active`, `acknowledged` or `cleared`.
    pub status: String,
    /// `None` when no webhook ran; 0 when it succeeded.
    pub webhook_status: Option<i16>,
    pub created_at: OffsetDateTime,
    pub cleared_at: Option<Timestamp>,
}

/// An alarm as the API shows it, with named level and webhook outcome.
#[derive(Debug)]
pub struct ApiAlarmRecord {
    pub id: i64,
    pub rule_id: i64,
    pub rule_name: String,
    pub product_id: String,
    pub device_id: String,
    /// `info`, `warning` or `critical`.
    pub level: String,
    pub message: Option<String>,
    pub trigger_value: Option<JsonValue>,
    pub acknowledged: bool,
    /// `active`, `acknowledged` or `cleared`.
    pub status: String,
    /// `success`, `failed`, or none when no webhook ran.
    pub webhook_status: Option<String>,
    pub created_at: OffsetDateTime,
    /// RFC 3339 text of the clearing time.
    pub cleared_at: Option<String>,
}

/// One alarm.
#[derive(Debug)]
pub struct AlarmRecordResponse {
    pub data: ApiAlarmRecord,
}

/// What the `time` crate writes for a point in time as RFC 3339: the
/// instant `unix_nanos` (`OffsetDateTime::from_unix_timestamp_nanos`) moved
/// to the offset `offset_seconds` (`UtcOffset::from_whole_seconds`,
/// `checked_to_offset`), then `format` with the well-known `Rfc3339`
/// description; `None` when one of these reports an error.
pub uninterp spec fn rfc3339_of(unix_nanos: int, offset_seconds: int) -> Option<Seq<char>>;

/// Writes a point in time as RFC 3339 with the `time` crate. Claims only
/// that the result is the named one.
#[verifier::external_body]
fn format_rfc3339(unix_nanos: i128, offset_seconds: i32) -> (r: Option<String>)
    ensures
        opt_view(r) == rfc3339_of(unix_nanos as int, offset_seconds as int),
{
    let offset = time::UtcOffset::from_whole_seconds(offset_seconds).ok()?;
    let instant = OffsetDateTime::from_unix_timestamp_nanos(unix_nanos).ok()?;
    let t = instant.checked_to_offset(offset)?;
    t.format(&time::format_description::well_known::Rfc3339).ok()
}

/// The text an alarm's clearing time is shown as: its RFC 3339 form, or
/// nothing when it was not cleared or cannot be written.
pub open spec fn cleared_text(t: Option<Timestamp>) -> Option<Seq<char>> {
    match t {
        Some(ts) => rfc3339_of(ts.unix_nanos as int, ts.offset_seconds as int),
        None => None,
    }
}

impl ApiAlarmRecord {
    /// The API form of a stored alarm: an alarm counts as acknowledged in
    /// every state but `active`.
    pub fn from_record(record: AlarmRecord) -> (r: ApiAlarmRecord)
        ensures
            r.id == record.id,
            r.rule_id == record.rule_id,
            r.rule_name == record.rule_name,
            r.product_id == record.product_id,
            r.device_id == record.device_id,
            r.level@ == level_label(record.level),
            r.message == record.message,
            r.trigger_value == record.trigger_value,
            r.acknowledged == (record.status@ != "active"@),
            r.status == record.status,
            opt_view(r.webhook_status) == webhook_label(record.webhook_status),
            r.created_at == record.created_at,
            opt_view(r.cleared_at) == cleared_text(record.cleared_at),
    {
        let status_chars = chars_of(record.status.as_str());
        let acknowledged = !str_eq_chars("active", &status_chars);
        let webhook_status = match record.webhook_status {
            None => None,
            Some(c) => if c == 0 {
                Some(owned("success"))
            } else {
                Some(owned("failed"))
            },
        };
        let cleared_at = match record.cleared_at {
            Some(t) => format_rfc3339(t.unix_nanos, t.offset_seconds),
            None => None,
        };
        let level = level_name(record.level);
        ApiAlarmRecord {
            id: record.id,
            rule_id: record.rule_id,
            rule_name: record.rule_name,
            product_id: record.product_id,
            device_id: record.device_id,
            level,
            message: record.message,
            trigger_value: record.trigger_value,
            acknowledged,
            status: record.status,
            webhook_status,
            created_at: record.created_at,
            cleared_at,
        }
    }
}

// ---------------------------------------------------------------------------
// Rule requests
// ---------------------------------------------------------------------------

/// The trigger types the rule engine knows.
pub open spec fn known_trigger_type(t: Seq<char>) -> bool {
    t == "property"@ || t == "event"@ || t == "device_online"@ || t == "device_offline"@
}

/// The message for an unknown trigger type.
pub open spec fn trigger_type_message(t: Seq<char>) -> Seq<char> {
    "Invalid trigger_type '"@ + t + "'. Must be one of: property, event, device_online, device_offline"@
}

/// The first check of a create-rule request: a known trigger type.
pub fn check_trigger_type(trigger_type: &str) -> (r: Result<(), ApiError>)
    ensures
        r is Ok <==> known_trigger_type(trigger_type@),
        r is Err ==> fails_with(r, 400, trigger_type_message(trigger_type@)),
{
    let t = chars_of(trigger_type);
    if str_eq_chars("property", &t) || str_eq_chars("event", &t) || str_eq_chars(
        "device_online",
        &t,
    ) || str_eq_chars("device_offline", &t) {
        Ok(())
    } else {
        Err(
            ApiError::bad_request_owned(
                concat3(
                    "Invalid trigger_type '",
                    trigger_type,
                    "'. Must be one of: property, event, device_online, device_offline",
                ),
            ),
        )
    }
}

/// The message for a duration or clear condition on a rule that is not a
/// property rule.
pub open spec fn property_only_message() -> Seq<char> {
    "Duration and clear conditions are only supported for property trigger type"@
}

/// What is wrong with a new rule once its product has been looked up, if
/// anything: the product must exist, the duration must not be negative,
/// only property rules may have a duration or a clear condition, and the
/// rule's trigger configuration, conditions and actions must be valid
/// (`create_rule_error`).
pub open spec fn new_rule_error(req: CreateAlarmRuleRequest, product_exists: bool) -> Option<
    Seq<char>,
> {
    if !product_exists {
        Some("Product '"@ + req.product_id@ + "' not found"@)
    } else if req.duration_minutes < 0 {
        Some("duration_minutes must be >= 0"@)
    } else if req.trigger_type@ != "property"@ && (req.duration_minutes > 0
        || req.clear_condition is Some) {
        Some(property_only_message())
    } else {
        create_rule_error(req)
    }
}

/// Only property rules may wait or clear: a new rule of an existing product
/// whose trigger type is not `property` is refused with the property-only
/// message whenever it asks for a positive duration, and whenever it
/// carries a clear condition (with a duration that is not negative),
/// whatever its other parts hold.
pub proof fn law_only_property_rules_wait_or_clear(req: CreateAlarmRuleRequest)
    requires
        req.trigger_type@ != "property"@,
    ensures
        req.duration_minutes > 0 ==> new_rule_error(req, true) == Some(property_only_message()),
        (req.duration_minutes >= 0 && req.clear_condition is Some) ==> new_rule_error(req, true)
            == Some(property_only_message()),
{
}

/// A rule's product is looked up first: a rule of a product that does not
/// exist is refused for that, whatever else it holds.
pub proof fn law_unknown_product_first(req: CreateAlarmRuleRequest)
    ensures
        new_rule_error(req, false) == Some("Product '"@ + req.product_id@ + "' not found"@),
{
}

/// Checks a create-rule request against the product lookup.
pub fn check_new_rule(req: &CreateAlarmRuleRequest, product_exists: bool) -> (r: Result<
    (),
    ApiError,
>)
    ensures
        bad_request_outcome(r, new_rule_error(*req, product_exists)),
{
    if !product_exists {
        return Err(
            ApiError::bad_request_owned(
                concat3("Product '", req.product_id.as_str(), "' not found"),
            ),
        );
    }
    if req.duration_minutes < 0 {
        return Err(ApiError::bad_request("duration_minutes must be >= 0"));
    }
    let t = chars_of(req.trigger_type.as_str());
    if !str_eq_chars("property", &t) && (req.duration_minutes > 0
        || req.clear_condition.is_some()) {
        return Err(
            ApiError::bad_request(
                "Duration and clear conditions are only supported for property trigger type",
            ),
        );
    }
    validate_create_rule_request(req)
}

/// The first check of an update-rule request: a given duration is not
/// negative.
pub fn check_update_duration(req: &UpdateAlarmRuleRequest) -> (r: Result<(), ApiError>)
    ensures
        r is Ok <==> !(req.duration_minutes matches Some(d) && d < 0),
        r is Err ==> fails_with(r, 400, "duration_minutes must be >= 0"@),
{
    if let Some(d) = req.duration_minutes {
        if d < 0 {
            return Err(ApiError::bad_request("duration_minutes must be >= 0"));
        }
    }
    Ok(())
}

/// The update sets a positive duration or a clear condition.
pub open spec fn update_sets_duration_or_clear(req: UpdateAlarmRuleRequest) -> bool {
    (req.duration_minutes matches Some(d) && d > 0) || (req.clear_condition matches Some(c)
        && c is Some)
}

/// Checks an update-rule request against the stored rule: the rule must
/// exist, and only a property rule may get a duration or clear condition.
pub fn check_rule_update(existing: Option<&AlarmRule>, req: &UpdateAlarmRuleRequest) -> (r: Result<
    (),
    ApiError,
>)
    ensures
        existing is None ==> fails_with(r, 404, "Alarm rule not found"@),
        existing matches Some(rule) ==> (if rule.trigger_type@ != "property"@
            && update_sets_duration_or_clear(*req) {
            fails_with(r, 400, property_only_message())
        } else {
            r is Ok
        }),
{
    let rule = match existing {
        Some(rule) => rule,
        None => {
            return Err(ApiError::not_found("Alarm rule not found"));
        },
    };
    let t = chars_of(rule.trigger_type.as_str());
    let sets_duration = match req.duration_minutes {
        Some(d) => d > 0,
        None => false,
    };
    let sets_clear = match &req.clear_condition {
        Some(c) => c.is_some(),
        None => false,
    };
    if !str_eq_chars("property", &t) && (sets_duration || sets_clear) {
        return Err(
            ApiError::bad_request(
                "Duration and clear conditions are only supported for property trigger type",
            ),
        );
    }
    Ok(())
}

/// A write to a rule that touched no row means the rule is gone.
pub fn check_rule_rows(rows_affected: u64) -> (r: Result<(), ApiError>)
    ensures
        r is Ok <==> rows_affected > 0,
        r is Err ==> fails_with(r, 404, "Alarm rule not found"@),
{
    if rows_affected == 0 {
        return Err(ApiError::not_found("Alarm rule not found"));
    }
    Ok(())
}

// ---------------------------------------------------------------------------
// Alarm listing
// ---------------------------------------------------------------------------

/// The message for a query that filters by both status and acknowledgement.
pub open spec fn exclusive_filters_message() -> Seq<char> {
    "Parameters 'status' and 'acknowledged' are mutually exclusive"@
}

/// Reads the filters of the alarm listing: `status` and `acknowledged`
/// exclude each other, a status must be one of the three states, and the
/// level filter is the level named (an unknown name filters nothing).
pub fn check_alarm_filters(query: &AlarmQuery) -> (r: Result<Option<i16>, ApiError>)
    ensures
        query.status is Some && query.acknowledged is Some ==> fails_with(
            r,
            400,
            exclusive_filters_message(),
        ),
        !(query.status is Some && query.acknowledged is Some) ==> match alarm_status_error(
            opt_view(query.status),
        ) {
            Some(m) => fails_with(r, 400, m),
            None => r == Ok::<Option<i16>, ApiError>(
                match query.level {
                    Some(l) => level_of(l@),
                    None => None,
                },
            ),
        },
{
    if query.status.is_some() && query.acknowledged.is_some() {
        return Err(
            ApiError::bad_request("Parameters 'status' and 'acknowledged' are mutually exclusive"),
        );
    }
    let status: Option<&str> = match &query.status {
        Some(s) => Some(s.as_str()),
        None => None,
    };
    validate_alarm_status(status)?;
    match &query.level {
        Some(l) => Ok(parse_level(l.as_str())),
        None => Ok(None),
    }
}

// ---------------------------------------------------------------------------
// Alarm life cycle
// ---------------------------------------------------------------------------

/// An alarm may be acknowledged only while it is active.
pub open spec fn ack_allowed(status: Seq<char>) -> bool {
    status == "active"@
}

/// An alarm may be cleared unless it is already cleared.
pub open spec fn clear_allowed(status: Seq<char>) -> bool {
    status != "cleared"@
}

/// The message for acknowledging an alarm that is not active.
pub open spec fn ack_refused_message() -> Seq<char> {
    "Only alarms in active status can be acknowledged"@
}

/// Checks that the alarm found may be acknowledged.
pub fn check_ack(existing_status: Option<&str>) -> (r: Result<(), ApiError>)
    ensures
        existing_status is None ==> fails_with(r, 404, "Alarm not found"@),
        existing_status matches Some(s) ==> (if ack_allowed(s@) {
            r is Ok
        } else {
            fails_with(r, 409, ack_refused_message())
        }),
{
    match existing_status {
        None => Err(ApiError::not_found("Alarm not found")),
        Some(s) => {
            let v = chars_of(s);
            if !str_eq_chars("active", &v) {
                return Err(ApiError::conflict("Only alarms in active status can be acknowledged"));
            }
            Ok(())
        },
    }
}

/// An acknowledgement that changed no row lost a race with another state
/// change.
pub fn check_ack_rows(rows_affected: u64) -> (r: Result<(), ApiError>)
    ensures
        r is Ok <==> rows_affected > 0,
        r is Err ==> fails_with(r, 409, ack_refused_message()),
{
    if rows_affected == 0 {
        return Err(ApiError::conflict("Only alarms in active status can be acknowledged"));
    }
    Ok(())
}

/// Checks that the alarm found may be cleared.
pub fn check_clear(existing_status: Option<&str>) -> (r: Result<(), ApiError>)
    ensures
        existing_status is None ==> fails_with(r, 404, "Alarm not found"@),
        existing_status matches Some(s) ==> (if clear_allowed(s@) {
            r is Ok
        } else {
            fails_with(r, 409, "Alarm already cleared"@)
        }),
{
    match existing_status {
        None => Err(ApiError::not_found("Alarm not found")),
        Some(s) => {
            let v = chars_of(s);
            if str_eq_chars("cleared", &v) {
                return Err(ApiError::conflict("Alarm already cleared"));
            }
            Ok(())
        },
    }
}

/// A clearing that changed no row found the alarm already cleared.
pub fn check_clear_rows(rows_affected: u64) -> (r: Result<(), ApiError>)
    ensures
        r is Ok <==> rows_affected > 0,
        r is Err ==> fails_with(r, 409, "Alarm already cleared"@),
{
    if rows_affected == 0 {
        return Err(ApiError::conflict("Alarm already cleared"));
    }
    Ok(())
}

/// The life cycle only moves forward: an alarm that may be acknowledged
/// may also be cleared, and a cleared alarm can be neither acknowledged
/// nor cleared again.
pub proof fn law_alarm_life_cycle(status: Seq<char>)
    ensures
        ack_allowed(status) ==> clear_allowed(status),
        status == "cleared"@ ==> !ack_allowed(status) && !clear_allowed(status),
        status == "acknowledged"@ ==> !ack_allowed(status) && clear_allowed(status),
{
    reveal_strlit("active");
    reveal_strlit("cleared");
    reveal_strlit("acknowledged");
    assert("active"@.len() == 6 && "cleared"@.len() == 7 && "acknowledged"@.len() == 12);
}

} // verus!
