//! Identifier validation shared by the handlers.
use crate::error::ApiError;
use crate::text::chars_of;
use crate::text::concat2;
use crate::text::identifier_chars;
use crate::text::identifier_chars_exec;
use crate::text::utf8_len;
use crate::text::utf8_len_exceeds;
use vstd::prelude::*;

verus! {

/// Longest identifier accepted, in bytes.
pub const MAX_IDENTIFIER_LENGTH: usize = 128;

/// An identifier: non-empty, at most 128 bytes, made of ASCII letters,
/// digits, `-` and `_`.
pub open spec fn valid_identifier(s: Seq<char>) -> bool {
    s.len() > 0 && utf8_len(s) <= 128 && identifier_chars(s)
}

/// The message for an unacceptable identifier.
pub open spec fn identifier_error(id: Seq<char>, field_name: Seq<char>) -> Seq<char> {
    if id.len() == 0 {
        field_name + " must not be empty"@
    } else if utf8_len(id) > 128 {
        field_name + " must not exceed 128 characters"@
    } else {
        field_name + " contains invalid character. Only alphanumeric, '-' and '_' are allowed"@
    }
}

/// Checks that `id` is an identifier; `field_name` names it in the message.
pub fn validate_identifier(id: &str, field_name: &str) -> (r: Result<(), ApiError>)
    ensures
        r is Ok <==> valid_identifier(id@),
        r matches Err(e) ==> e.is(400, identifier_error(id@, field_name@)),
{
    let v = chars_of(id);
    if v.len() == 0 {
        return Err(ApiError::bad_request_owned(concat2(field_name, " must not be empty")));
    }
    if utf8_len_exceeds(&v, 0, v.len(), MAX_IDENTIFIER_LENGTH) {
        assert(v@.subrange(0, v@.len() as int) == v@);
        return Err(ApiError::bad_request_owned(concat2(field_name, " must not exceed 128 characters")));
    }
    assert(v@.subrange(0, v@.len() as int) == v@);
    if !identifier_chars_exec(&v) {
        return Err(
            ApiError::bad_request_owned(
                concat2(
                    field_name,
                    " contains invalid character. Only alphanumeric, '-' and '_' are allowed",
                ),
            ),
        );
    }
    Ok(())
}

/// The outcome of checking optional identifiers in order: the first given
/// one that is not an identifier fails, naming its field.
pub open spec fn optional_ids_outcome(
    product_id: Option<Seq<char>>,
    device_id: Option<Seq<char>>,
) -> Option<Seq<char>> {
    match product_id {
        Some(p) if !valid_identifier(p) => Some(identifier_error(p, "product_id"@)),
        _ => match device_id {
            Some(d) if !valid_identifier(d) => Some(identifier_error(d, "device_id"@)),
            _ => None,
        },
    }
}

/// Checks the product and device ids a query gives, when it gives them.
pub fn validate_optional_ids(product_id: Option<&str>, device_id: Option<&str>) -> (r: Result<
    (),
    ApiError,
>)
    ensures
        crate::error::bad_request_outcome(
            r,
            optional_ids_outcome(
                match product_id {
                    Some(p) => Some(p@),
                    None => None,
                },
                match device_id {
                    Some(d) => Some(d@),
                    None => None,
                },
            ),
        ),
{
    if let Some(p) = product_id {
        validate_identifier(p, "product_id")?;
    }
    if let Some(d) = device_id {
        validate_identifier(d, "device_id")?;
    }
    Ok(())
}

/// Checks a query's product id and, when it gives one, its device id.
pub fn validate_query_ids(product_id: &str, device_id: Option<&str>) -> (r: Result<(), ApiError>)
    ensures
        crate::error::bad_request_outcome(
            r,
            optional_ids_outcome(
                Some(product_id@),
                match device_id {
                    Some(d) => Some(d@),
                    None => None,
                },
            ),
        ),
{
    validate_optional_ids(Some(product_id), device_id)
}

} // verus!
