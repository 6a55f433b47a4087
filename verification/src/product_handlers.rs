//! Validation of product create / update requests.
use crate::error::fails_with;
use crate::error::ApiError;
use crate::text::chars_eq;
use crate::text::chars_of;
use crate::text::trim;
use crate::text::trim_bounds;
use crate::utils::identifier_error;
use crate::utils::valid_identifier;
use crate::utils::validate_identifier;
use vstd::prelude::*;

verus! {

/// The PostgreSQL error code of a unique-constraint violation.
pub const PG_UNIQUE_VIOLATION: &'static str = "23505";

/// Longest product `name` accepted, in characters (after trimming).
pub const MAX_PRODUCT_NAME_LENGTH: usize = 128;

/// Request body for creating a product.
#[derive(Debug)]
pub struct CreateProductRequest {
    pub name: String,
    /// The product identifier used across the system (the `product_id` of
    /// rules, templates and MQTT topics).
    pub model_no: String,
    pub description: Option<String>,
}

/// Request body for updating a product (`model_no` cannot change).
#[derive(Debug)]
pub struct UpdateProductRequest {
    pub name: String,
    pub description: String,
    pub auto_provisioning: bool,
}

/// A product name is acceptable when its trimmed text is non-empty and at
/// most 128 characters long.
pub open spec fn valid_product_name(name: Seq<char>) -> bool {
    trim(name).len() > 0 && trim(name).len() <= 128
}

/// The error for an unacceptable product name, when there is one.
pub open spec fn name_error(name: Seq<char>, e: ApiError) -> bool {
    &&& trim(name).len() == 0 ==> e.is(400, "name must not be empty"@)
    &&& trim(name).len() > 0 ==> e.is(400, "name must not exceed 128 characters"@)
}

fn check_name(name: &str) -> (r: Result<(), ApiError>)
    ensures
        r is Ok <==> valid_product_name(name@),
        r matches Err(e) ==> name_error(name@, e),
{
    let v = chars_of(name);
    let (a, b) = trim_bounds(&v);
    if a == b {
        return Err(ApiError::bad_request("name must not be empty"));
    }
    if b - a > MAX_PRODUCT_NAME_LENGTH {
        return Err(ApiError::bad_request("name must not exceed 128 characters"));
    }
    Ok(())
}

/// Validates a create request before it reaches the database: the name
/// as for updates, then `model_no` as an identifier.
pub fn validate_create_product_request(req: &CreateProductRequest) -> (r: Result<(), ApiError>)
    ensures
        r is Ok <==> valid_product_name(req.name@) && valid_identifier(req.model_no@),
        r matches Err(e) ==> !valid_product_name(req.name@) ==> name_error(req.name@, e),
        valid_product_name(req.name@) && !valid_identifier(req.model_no@) ==> fails_with(
            r,
            400,
            identifier_error(req.model_no@, "model_no"@),
        ),
{
    check_name(req.name.as_str())?;
    validate_identifier(req.model_no.as_str(), "model_no")
}

/// Validates an update request: the trimmed name is non-empty and at most
/// 128 characters.
pub fn validate_update_product_request(req: &UpdateProductRequest) -> (r: Result<(), ApiError>)
    ensures
        r is Ok <==> valid_product_name(req.name@),
        r matches Err(e) ==> name_error(req.name@, e),
{
    check_name(req.name.as_str())
}

/// The response to a failed product insert, from the database error code
/// when the failure came from the database: a unique-constraint violation
/// means the model number is taken (409); any other failure is the uniform
/// 500.
pub fn create_product_error(db_code: Option<&str>) -> (e: ApiError)
    ensures
        db_code matches Some(c) && c@ == "23505"@ ==> e.is(409, "产品型号编号已存在"@),
        !(db_code matches Some(c) && c@ == "23505"@) ==> e.is(500, "Database operation failed"@),
{
    proof {
        reveal_strlit("23505");
    }
    let unique = match db_code {
        Some(c) => {
            let v = chars_of(c);
            let k = chars_of(PG_UNIQUE_VIOLATION);
            chars_eq(&v, &k)
        },
        None => false,
    };
    if unique {
        ApiError::conflict("产品型号编号已存在")
    } else {
        ApiError::internal("Database operation failed")
    }
}

} // verus!
