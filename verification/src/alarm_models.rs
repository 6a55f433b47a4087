//! Alarm rules and alarm records: request bodies, queries and the checks a
//! rule must pass before it is stored.
use crate::error::bad_request_outcome;
use crate::error::first_error;
use crate::error::ApiError;
use crate::json::json_get;
use crate::json::lemma_array_deep;
use crate::json::lemma_deep_seq;
use crate::json::lemma_object_deep;
use crate::json::deep_seq;
use crate::json::Json;
use crate::json::JsonValue;
use crate::text::chars_of;
use crate::text::concat2;
use crate::text::concat3;
use crate::text::identifier_chars;
use crate::text::identifier_chars_exec;
use crate::text::str_eq_chars;
use crate::text::utf8_len;
use crate::text::utf8_len_exceeds;
use vstd::prelude::*;

verus! {

/// The page a listing starts at when none is asked for.
pub fn default_page() -> (p: i64)
    ensures
        p == 1,
{
    1
}

/// The page size of a listing when none is asked for.
pub fn default_page_size() -> (p: i64)
    ensures
        p == 10,
{
    10
}

/// Filters of the alarm-rule listing.
#[derive(Debug)]
pub struct AlarmRuleQuery {
    pub product_id: Option<String>,
    pub enabled: Option<bool>,
    pub page: i64,
    pub page_size: i64,
}

/// Body of a create-rule request.
#[derive(Debug)]
pub struct CreateAlarmRuleRequest {
    /// The product's model number.
    pub product_id: String,
    pub name: String,
    pub description: Option<String>,
    /// `property`, `event`, `device_online` or `device_offline`.
    pub trigger_type: String,
    pub trigger_config: JsonValue,
    pub condition: JsonValue,
    pub actions: JsonValue,
    /// Deduplication interval in minutes; 0 means none.
    pub throttle_minutes: i32,
    /// How long the condition must hold, in minutes; 0 fires at once.
    pub duration_minutes: i32,
    pub clear_condition: Option<JsonValue>,
}

/// The trigger configuration of a rule that gives none: an empty object.
pub fn default_trigger_config() -> (v: JsonValue)
    ensures
        v.deep() == Json::Object(Map::empty()),
{
    let m: Vec<(String, JsonValue)> = Vec::new();
    proof {
        lemma_object_deep(m);
        assert(crate::json::members(m@) =~= Seq::<(Seq<char>, Json)>::empty());
    }
    JsonValue::Object(m)
}

/// Body of an update-rule request; an absent field is left unchanged.
#[derive(Debug)]
pub struct UpdateAlarmRuleRequest {
    pub name: Option<String>,
    pub description: Option<String>,
    pub trigger_config: Option<JsonValue>,
    pub condition: Option<JsonValue>,
    pub actions: Option<JsonValue>,
    pub throttle_minutes: Option<i32>,
    pub duration_minutes: Option<i32>,
    /// `None` leaves the clear condition, `Some(None)` removes it and
    /// `Some(Some(c))` sets it.
    pub clear_condition: Option<Option<JsonValue>>,
}

/// Body of an enable/disable request.
#[derive(Debug)]
pub struct UpdateAlarmRuleStatusRequest {
    pub enabled: bool,
}

/// A stored alarm rule.
#[derive(Debug)]
pub struct AlarmRule {
    pub id: i64,
    pub product_id: String,
    pub name: String,
    pub description: Option<String>,
    pub trigger_type: String,
    pub trigger_config: JsonValue,
    pub condition: JsonValue,
    pub actions: JsonValue,
    pub throttle_minutes: i32,
    pub duration_minutes: i32,
    pub clear_condition: Option<JsonValue>,
    pub enabled: bool,
}

/// One alarm rule.
#[derive(Debug)]
pub struct AlarmRuleResponse {
    pub data: AlarmRule,
}

/// Filters of the alarm listing.
#[derive(Debug)]
pub struct AlarmQuery {
    pub product_id: Option<String>,
    pub device_id: Option<String>,
    /// `info`, `warning` or `critical`.
    pub level: Option<String>,
    pub acknowledged: Option<bool>,
    /// `active`, `acknowledged` or `cleared`.
    pub status: Option<String>,
    pub page: i64,
    pub page_size: i64,
}

// ---------------------------------------------------------------------------
// Conditions
// ---------------------------------------------------------------------------

/// The comparison operators the rule engine evaluates.
pub open spec fn supported_operator(op: Seq<char>) -> bool {
    ||| op == ">"@
    ||| op == ">="@
    ||| op == "<"@
    ||| op == "<="@
    ||| op == "=="@
    ||| op == "!="@
    ||| op == "between"@
    ||| op == "contains"@
    ||| op == "always"@
}

/// Whether the rule engine evaluates the operator `op`.
pub fn is_supported_operator(op: &str) -> (b: bool)
    ensures
        b == supported_operator(op@),
{
    let v = chars_of(op);
    str_eq_chars(">", &v) || str_eq_chars(">=", &v) || str_eq_chars("<", &v) || str_eq_chars(
        "<=",
        &v,
    ) || str_eq_chars("==", &v) || str_eq_chars("!=", &v) || str_eq_chars("between", &v)
        || str_eq_chars("contains", &v) || str_eq_chars("always", &v)
}

/// What is wrong with a condition named `f`, if anything: it must be an
/// object whose `operator` is a string naming a supported operator.
pub open spec fn condition_error(c: Json, f: Seq<char>) -> Option<Seq<char>> {
    match c {
        Json::Object(_) => match json_get(c, "operator"@) {
            Some(Json::Str(op)) => if supported_operator(op) {
                None
            } else {
                Some(
                    f + " has unsupported operator '"@ + op
                        + "'. Must be one of: >, >=, <, <=, ==, !=, between, contains, always"@,
                )
            },
            _ => Some(f + " must contain an 'operator' string field"@),
        },
        _ => Some(f + " must be a JSON object"@),
    }
}

/// Checks a condition; `field_name` names it in the message.
pub fn validate_condition(condition: &JsonValue, field_name: &str) -> (r: Result<(), ApiError>)
    ensures
        bad_request_outcome(r, condition_error(condition.deep(), field_name@)),
{
    if !condition.is_object() {
        return Err(ApiError::bad_request_owned(concat2(field_name, " must be a JSON object")));
    }
    let op = match condition.get("operator") {
        Some(v) => match v.as_str() {
            Some(s) => s,
            None => {
                return Err(
                    ApiError::bad_request_owned(
                        concat2(field_name, " must contain an 'operator' string field"),
                    ),
                );
            },
        },
        None => {
            return Err(
                ApiError::bad_request_owned(
                    concat2(field_name, " must contain an 'operator' string field"),
                ),
            );
        },
    };
    if !is_supported_operator(op.as_str()) {
        let head = concat3(field_name, " has unsupported operator '", op.as_str());
        return Err(
            ApiError::bad_request_owned(
                concat2(
                    head.as_str(),
                    "'. Must be one of: >, >=, <, <=, ==, !=, between, contains, always",
                ),
            ),
        );
    }
    Ok(())
}

// ---------------------------------------------------------------------------
// Actions
// ---------------------------------------------------------------------------

/// An action that raises an alarm: its `type` is the string `alarm`.
pub open spec fn is_alarm_action(a: Json) -> bool {
    json_get(a, "type"@) == Some(Json::Str("alarm"@))
}

/// Some action of the list raises an alarm.
pub open spec fn has_alarm_action(s: Seq<Json>) -> bool {
    exists|i: int| 0 <= i < s.len() && is_alarm_action(#[trigger] s[i])
}

/// What is wrong with an action list, if anything: it must be an array
/// with at least one alarm action.
pub open spec fn actions_error(a: Json) -> Option<Seq<char>> {
    match a {
        Json::Array(s) => if has_alarm_action(s) {
            None
        } else {
            Some("actions must contain at least one alarm action"@)
        },
        _ => Some("actions must be a JSON array"@),
    }
}

fn is_alarm_entry(a: &JsonValue) -> (b: bool)
    ensures
        b == is_alarm_action(a.deep()),
{
    match a.get("type") {
        Some(t) => match t.as_str() {
            Some(s) => {
                let v = chars_of(s.as_str());
                str_eq_chars("alarm", &v)
            },
            None => false,
        },
        None => false,
    }
}

/// Checks that the actions are an array holding an alarm action.
pub fn validate_actions(actions: &JsonValue) -> (r: Result<(), ApiError>)
    ensures
        bad_request_outcome(r, actions_error(actions.deep())),
{
    match actions {
        JsonValue::Array(arr) => {
            proof {
                lemma_array_deep(*arr);
                lemma_deep_seq(arr@);
            }
            let ghost s = deep_seq(arr@);
            if arr.len() == 0 {
                return Err(ApiError::bad_request("actions must contain at least one alarm action"));
            }
            let mut i: usize = 0;
            while i < arr.len()
                invariant
                    i <= arr@.len(),
                    s == deep_seq(arr@),
                    actions.deep() == Json::Array(s),
                    s.len() == arr@.len(),
                    forall|j: int| 0 <= j < arr@.len() ==> #[trigger] s[j] == arr@[j].deep(),
                    forall|j: int| 0 <= j < i ==> !is_alarm_action(#[trigger] s[j]),
                decreases arr@.len() - i,
            {
                if is_alarm_entry(&arr[i]) {
                    assert(is_alarm_action(s[i as int]));
                    assert(has_alarm_action(s));
                    return Ok(());
                }
                i = i + 1;
            }
            Err(ApiError::bad_request("actions must contain at least one alarm action"))
        },
        _ => Err(ApiError::bad_request("actions must be a JSON array")),
    }
}

// ---------------------------------------------------------------------------
// Trigger configuration
// ---------------------------------------------------------------------------

/// What is wrong with a property name or event identifier named `f`, if
/// anything: a non-empty text of at most 128 bytes of ASCII letters,
/// digits, `-` and `_`.
pub open spec fn identifier_safe_error(id: Seq<char>, f: Seq<char>) -> Option<Seq<char>> {
    if id.len() == 0 {
        Some(f + " must not be empty"@)
    } else if utf8_len(id) > 128 {
        Some(f + " must not exceed 128 characters"@)
    } else if !identifier_chars(id) {
        Some(f + " contains invalid character. Only alphanumeric, '-' and '_' are allowed"@)
    } else {
        None
    }
}

/// Checks a property name or event identifier; `field_name` names it.
pub fn validate_identifier_safe(id: &str, field_name: &str) -> (r: Result<(), ApiError>)
    ensures
        bad_request_outcome(r, identifier_safe_error(id@, field_name@)),
{
    let v = chars_of(id);
    if v.len() == 0 {
        return Err(ApiError::bad_request_owned(concat2(field_name, " must not be empty")));
    }
    if utf8_len_exceeds(&v, 0, v.len(), 128) {
        assert(v@.subrange(0, v@.len() as int) == v@);
        return Err(ApiError::bad_request_owned(concat2(field_name, " must not exceed 128 characters")));
    }
    assert(v@.subrange(0, v@.len() as int) == v@);
    if !identifier_chars_exec(&v) {
        return Err(
            ApiError::bad_request_owned(
                concat2(
                    field_name,
                    " contains invalid character. Only alphanumeric, '-' and '_' are allowed",
                ),
            ),
        );
    }
    Ok(())
}

/// What is wrong with the field `key` of a trigger configuration that
/// requires it: it must be a non-empty string and a safe identifier.
pub open spec fn required_field_error(cfg: Json, key: Seq<char>, missing: Seq<char>) -> Option<
    Seq<char>,
> {
    match json_get(cfg, key) {
        Some(Json::Str(s)) => if s.len() > 0 {
            identifier_safe_error(s, key)
        } else {
            Some(missing)
        },
        _ => Some(missing),
    }
}

fn check_required_field(cfg: &JsonValue, key: &str, missing: &str) -> (r: Result<(), ApiError>)
    ensures
        bad_request_outcome(r, required_field_error(cfg.deep(), key@, missing@)),
{
    match cfg.get(key) {
        Some(v) => match v.as_str() {
            Some(s) => {
                if s.as_str().is_empty() {
                    return Err(ApiError::bad_request(missing));
                }
                validate_identifier_safe(s.as_str(), key)
            },
            None => Err(ApiError::bad_request(missing)),
        },
        None => Err(ApiError::bad_request(missing)),
    }
}

/// What is wrong with a trigger configuration for trigger type `t`, if
/// anything.
pub open spec fn trigger_config_error(t: Seq<char>, cfg: Json) -> Option<Seq<char>> {
    match cfg {
        Json::Object(_) => if t == "property"@ {
            required_field_error(
                cfg,
                "property_name"@,
                "trigger_config.property_name is required for property trigger type"@,
            )
        } else if t == "event"@ {
            required_field_error(
                cfg,
                "event_identifier"@,
                "trigger_config.event_identifier is required for event trigger type"@,
            )
        } else if t == "device_online"@ || t == "device_offline"@ {
            None
        } else {
            Some(
                "Invalid trigger_type '"@ + t
                    + "'. Must be one of: property, event, device_online, device_offline"@,
            )
        },
        _ => Some("trigger_config must be a JSON object"@),
    }
}

/// Checks that a trigger configuration names what its trigger type needs.
pub fn validate_trigger_config(trigger_type: &str, trigger_config: &JsonValue) -> (r: Result<
    (),
    ApiError,
>)
    ensures
        bad_request_outcome(r, trigger_config_error(trigger_type@, trigger_config.deep())),
{
    if !trigger_config.is_object() {
        return Err(ApiError::bad_request("trigger_config must be a JSON object"));
    }
    let t = chars_of(trigger_type);
    if str_eq_chars("property", &t) {
        check_required_field(
            trigger_config,
            "property_name",
            "trigger_config.property_name is required for property trigger type",
        )
    } else if str_eq_chars("event", &t) {
        check_required_field(
            trigger_config,
            "event_identifier",
            "trigger_config.event_identifier is required for event trigger type",
        )
    } else if str_eq_chars("device_online", &t) || str_eq_chars("device_offline", &t) {
        Ok(())
    } else {
        Err(
            ApiError::bad_request_owned(
                concat3(
                    "Invalid trigger_type '",
                    trigger_type,
                    "'. Must be one of: property, event, device_online, device_offline",
                ),
            ),
        )
    }
}

/// What is wrong with a create-rule request, if anything: the trigger
/// configuration, then the condition, then the clear condition, then the
/// actions.
pub open spec fn create_rule_error(req: CreateAlarmRuleRequest) -> Option<Seq<char>> {
    first_error(
        trigger_config_error(req.trigger_type@, req.trigger_config.deep()),
        first_error(
            condition_error(req.condition.deep(), "condition"@),
            first_error(
                match req.clear_condition {
                    Some(c) => condition_error(c.deep(), "clear_condition"@),
                    None => None,
                },
                actions_error(req.actions.deep()),
            ),
        ),
    )
}

/// Checks a whole create-rule request.
pub fn validate_create_rule_request(req: &CreateAlarmRuleRequest) -> (r: Result<(), ApiError>)
    ensures
        bad_request_outcome(r, create_rule_error(*req)),
{
    validate_trigger_config(req.trigger_type.as_str(), &req.trigger_config)?;
    validate_condition(&req.condition, "condition")?;
    if let Some(clear) = &req.clear_condition {
        validate_condition(clear, "clear_condition")?;
    }
    validate_actions(&req.actions)?;
    Ok(())
}

// ---------------------------------------------------------------------------
// Alarm status
// ---------------------------------------------------------------------------

/// The three states of an alarm.
pub open spec fn alarm_status(s: Seq<char>) -> bool {
    s == "active"@ || s == "acknowledged"@ || s == "cleared"@
}

/// What is wrong with a status filter, if anything.
pub open spec fn alarm_status_error(status: Option<Seq<char>>) -> Option<Seq<char>> {
    match status {
        Some(s) => if alarm_status(s) {
            None
        } else {
            Some("Invalid status '"@ + s + "'. Must be one of: active, acknowledged, cleared"@)
        },
        None => None,
    }
}

/// Checks an alarm-status filter: absent, or one of the three states,
/// compared case-sensitively.
pub fn validate_alarm_status(status: Option<&str>) -> (r: Result<(), ApiError>)
    ensures
        bad_request_outcome(
            r,
            alarm_status_error(
                match status {
                    Some(s) => Some(s@),
                    None => None,
                },
            ),
        ),
{
    if let Some(s) = status {
        let v = chars_of(s);
        if !(str_eq_chars("active", &v) || str_eq_chars("acknowledged", &v) || str_eq_chars(
            "cleared",
            &v,
        )) {
            return Err(
                ApiError::bad_request_owned(
                    concat3("Invalid status '", s, "'. Must be one of: active, acknowledged, cleared"),
                ),
            );
        }
    }
    Ok(())
}

} // verus!
