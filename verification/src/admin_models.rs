//! Query parameters and response shapes of the administrative API.
use crate::json::Json;
use crate::json::JsonValue;
use time::OffsetDateTime;
use vstd::prelude::*;

verus! {

/// Page number used when a query gives none.
pub fn default_page() -> (p: i64)
    ensures
        p == 1,
{
    1
}

/// Page size used when a query gives none.
pub fn default_page_size() -> (p: i64)
    ensures
        p == 10,
{
    10
}

/// Delivery state of a command: 0 pending, 1 sent, 2 success, 3 failed,
/// 4 deleted.
#[derive(Clone, Copy, Debug, PartialEq, Eq, Structural)]
pub enum CommandStatus {
    Pending,
    Sent,
    Success,
    Failed,
    Deleted,
}

/// Origin of a property command: 0 a one-shot write, 1 a desired-state
/// delta.
#[derive(Clone, Copy, Debug, PartialEq, Eq, Structural)]
pub enum CommandSource {
    OneShot,
    DesiredDelta,
}

/// Connection state of a device.
#[derive(Clone, Copy, Debug, PartialEq, Eq, Structural)]
pub enum DeviceConnectionStatus {
    Online,
    Offline,
}

/// How a device was registered: 0 automatically, 1 manually.
#[derive(Clone, Copy, Debug, PartialEq, Eq, Structural)]
pub enum RegistrationSource {
    Auto,
    Manual,
}

/// Lifecycle state of a validation template.
#[derive(Clone, Copy, Debug, PartialEq, Eq, Structural)]
pub enum EventValidTemplateStatus {
    Draft,
    Active,
    Inactive,
}

/// Common query parameters.
#[derive(Debug)]
pub struct CommonQuery {
    pub product_id: String,
    pub device_id: Option<String>,
    pub page: i64,
    pub page_size: i64,
}

/// Property command query parameters.
#[derive(Debug)]
pub struct PropertyCommandQuery {
    pub product_id: String,
    pub device_id: Option<String>,
    pub status: Option<CommandStatus>,
    pub source: Option<CommandSource>,
    pub page: i64,
    pub page_size: i64,
}

/// Device status query parameters.
#[derive(Debug)]
pub struct CommonQuery2 {
    pub product_id: Option<String>,
    pub device_id: Option<String>,
    pub status: Option<DeviceConnectionStatus>,
    pub registration_source: Option<RegistrationSource>,
    pub page: i64,
    pub page_size: i64,
}

/// Kind of a device operation: a target sync (`targetSync`), a direct
/// property write (`directPropertyWrite`) or an action invocation
/// (`actionInvocation`).
#[derive(Clone, Copy, Debug, PartialEq, Eq, Structural)]
pub enum DeviceOperationType {
    TargetSync,
    DirectPropertyWrite,
    ActionInvocation,
}

/// Unified device operation query parameters.
#[derive(Debug)]
pub struct DeviceOperationQuery {
    pub product_id: String,
    pub device_id: Option<String>,
    pub operation_type: Option<DeviceOperationType>,
    pub status: Option<CommandStatus>,
    pub page: i64,
    pub page_size: i64,
}

/// One entry of a device's unified operation history: a property command
/// (`property:{id}`, named `Set properties` or `Sync target`) or an action
/// invocation (`action:{id}`, named by its service type).
#[derive(Debug)]
pub struct DeviceOperationView {
    pub operation_id: String,
    pub operation_type: DeviceOperationType,
    pub name: String,
    /// The property command or the action's parameters.
    pub payload: JsonValue,
    pub status: CommandStatus,
    pub created_time: OffsetDateTime,
    pub updated_time: OffsetDateTime,
}

/// Request body for creating a property command.
#[derive(Debug)]
pub struct CreatePropertyCommandRequest {
    pub product_id: String,
    pub device_id: String,
    pub command: JsonValue,
}

/// Request body for invoking an action on a device; `params` is `{}` when
/// omitted.
#[derive(Debug)]
pub struct CreateActionCommandRequest {
    pub product_id: String,
    pub device_id: String,
    pub service_type: String,
    pub params: JsonValue,
}

/// The parameters of an action invocation that gives none: `{}`.
pub fn default_empty_object() -> (v: JsonValue)
    ensures
        v matches JsonValue::Object(m) && m@.len() == 0,
        v.deep() == Json::Object(Map::empty()),
{
    let v = JsonValue::Object(Vec::new());
    proof {
        assert(crate::json::members(Seq::<(String, JsonValue)>::empty()) =~= Seq::empty());
        assert(crate::json::entries_map(Seq::empty()) =~= Map::<Seq<char>, Json>::empty());
    }
    v
}

/// Response of an action invocation: its id and its state once queued.
#[derive(Debug)]
pub struct CreateActionCommandResponse {
    pub id: i64,
    pub status: CommandStatus,
}

/// A stored action invocation.
#[derive(Debug)]
pub struct ActionInvocation {
    pub id: i64,
    pub service_type: String,
    pub params: JsonValue,
    pub status: CommandStatus,
    /// When the action was queued.
    pub created_time: OffsetDateTime,
    /// When its state last changed.
    pub updated_time: OffsetDateTime,
}

/// An action invocation as the API shows it.
#[derive(Debug)]
pub struct ActionInvocationView {
    pub id: i64,
    pub service_type: String,
    pub params: JsonValue,
    pub status: CommandStatus,
    pub created_time: OffsetDateTime,
    pub updated_time: OffsetDateTime,
}

impl ActionInvocationView {
    /// The API form of a stored action invocation: every field as stored.
    pub fn from_row(row: ActionInvocation) -> (v: ActionInvocationView)
        ensures
            v.id == row.id,
            v.service_type == row.service_type,
            v.params == row.params,
            v.status == row.status,
            v.created_time == row.created_time,
            v.updated_time == row.updated_time,
    {
        ActionInvocationView {
            id: row.id,
            service_type: row.service_type,
            params: row.params,
            status: row.status,
            created_time: row.created_time,
            updated_time: row.updated_time,
        }
    }
}

/// Action invocation history query parameters.
#[derive(Debug)]
pub struct ActionCommandQuery {
    pub product_id: String,
    pub device_id: Option<String>,
    pub service_type: Option<String>,
    pub status: Option<CommandStatus>,
    pub page: i64,
    pub page_size: i64,
}

/// Ids of the action invocations to delete.
#[derive(Debug)]
pub struct DeleteActionCommandsQuery {
    pub ids: Vec<i64>,
}

/// A page of results with the total count.
#[derive(Debug)]
pub struct PaginatedResponse<T> {
    pub data: Vec<T>,
    pub pagination: PaginationInfo,
}

/// Page number, page size and total count.
#[derive(Debug)]
pub struct PaginationInfo {
    pub page: i64,
    pub page_size: i64,
    pub total: i64,
}

/// Page number and page size, without a total.
#[derive(Debug)]
pub struct SimplePaginationInfo {
    pub page: i64,
    pub page_size: i64,
}

/// A page of results without a total count.
#[derive(Debug)]
pub struct SimplePaginatedResponse<T> {
    pub data: Vec<T>,
    pub pagination: SimplePaginationInfo,
}

/// Product query parameters.
#[derive(Debug)]
pub struct ProductQuery {
    pub search: Option<String>,
    pub page: i64,
    pub page_size: i64,
}

/// Validation template query parameters.
#[derive(Debug)]
pub struct EventValidTemplateQuery {
    pub product_id: Option<String>,
    pub event: Option<String>,
    pub page: i64,
    pub page_size: i64,
}

/// Request body for creating a validation template.
#[derive(Debug)]
pub struct CreateEventValidTemplateRequest {
    pub product_id: String,
    pub event: String,
    pub description: Option<String>,
    pub schema: JsonValue,
}

/// Request body for updating a validation template.
#[derive(Debug)]
pub struct UpdateEventValidTemplateRequest {
    pub schema: Option<JsonValue>,
    pub description: Option<String>,
}

/// Request body for changing a validation template's status.
#[derive(Debug)]
pub struct UpdateEventValidTemplateStatusRequest {
    pub status: EventValidTemplateStatus,
}

/// OTA version query parameters.
#[derive(Debug)]
pub struct OtaVersionQuery {
    pub product_id: Option<String>,
    pub page: i64,
    pub page_size: i64,
}

/// Change-log query parameters (1-based pages).
#[derive(Debug)]
pub struct FactoryChangeLogQuery {
    pub page: i64,
    pub page_size: i64,
}

/// Request body for creating an OTA version.
#[derive(Debug)]
pub struct CreateOtaVersionRequest {
    pub product_id: String,
    pub key: String,
    pub version: String,
    pub max_version: Option<String>,
    pub min_version: String,
    pub file_key: String,
    pub log: Option<JsonValue>,
    pub device_ids: Option<Vec<String>>,
    pub bin_length: i64,
    pub bin_md5: String,
}

/// Request body for updating an OTA version.
#[derive(Debug)]
pub struct UpdateOtaVersionRequest {
    pub max_version: Option<String>,
    pub min_version: Option<String>,
    pub file_key: Option<String>,
    pub log: Option<JsonValue>,
    pub device_ids: Option<Vec<String>>,
    pub bin_length: Option<i64>,
    pub bin_md5: Option<String>,
}

/// Set-Desired request: a partial patch over the desired document (a
/// non-null value sets a key, `null` deletes it).
#[derive(Debug)]
pub struct SetDesiredRequest {
    pub product_id: String,
    pub device_id: String,
    pub desired: Vec<(String, JsonValue)>,
}

/// Set-Desired response: the merged desired document, the delta of this
/// write, and whether a delta command was queued.
#[derive(Debug)]
pub struct SetDesiredResponse {
    pub desired: JsonValue,
    pub delta: JsonValue,
    pub pushed: bool,
}

/// The shadow of a device: its desired document and reported snapshot
/// (each `{}` when there is none), their delta, and when each was last
/// written.
#[derive(Debug)]
pub struct ShadowView {
    pub desired: JsonValue,
    pub reported: JsonValue,
    /// The bare desired values still to be reported; empty once converged.
    pub delta: JsonValue,
    pub desired_updated_time: Option<OffsetDateTime>,
    pub reported_updated_time: Option<OffsetDateTime>,
}

/// Get-Delta query parameters.
#[derive(Debug)]
pub struct ShadowQuery {
    pub product_id: String,
    pub device_id: String,
}

/// Most points one chart series query returns.
pub const MAX_SERIES_POINTS: i64 = 1000;

/// Most property keys one series query accepts.
pub const MAX_SERIES_KEYS: usize = 5;

/// Default look-back window of the numeric key discovery, in days.
pub const DEFAULT_KEY_LOOKBACK_DAYS: i32 = 30;

/// Longest property key accepted by a series query.
pub const MAX_SERIES_KEY_LENGTH: usize = 128;

/// Numeric property discovery query parameters.
#[derive(Debug)]
pub struct PropertyChartKeysQuery {
    pub product_id: String,
    pub device_id: String,
    pub lookback_days: Option<i32>,
}

/// A numeric property of a device and how often it was reported.
#[derive(Debug)]
pub struct PropertyChartKey {
    pub key: String,
    pub sample_count: i64,
}

/// Numeric property discovery response.
#[derive(Debug)]
pub struct PropertyChartKeysResponse {
    pub data: Vec<PropertyChartKey>,
}

/// Chart series query parameters (RFC 3339 bounds, both inclusive).
#[derive(Debug)]
pub struct PropertySeriesQuery {
    pub product_id: String,
    pub device_id: String,
    pub keys: Vec<String>,
    pub start_time: String,
    pub end_time: String,
}

/// One reported point of a series: RFC 3339 time and numeric value text.
#[derive(Debug)]
pub struct PropertySeriesPoint {
    pub time: String,
    pub value: JsonValue,
}

/// The series of one property key.
#[derive(Debug)]
pub struct PropertySeriesView {
    pub key: String,
    pub total_points: i64,
    pub downsampled: bool,
    pub stride: i64,
    pub points: Vec<PropertySeriesPoint>,
}

/// Chart series response, in the order of the requested keys.
#[derive(Debug)]
pub struct PropertySeriesListResponse {
    pub data: Vec<PropertySeriesView>,
}

} // verus!
