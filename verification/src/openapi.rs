//! The OpenAPI description of the service.
use crate::text::chars_of;
use crate::text::starts_with;
use crate::text::starts_with_exec;
use vstd::prelude::*;

verus! {

/// The OpenAPI document of the service.
#[derive(Debug)]
pub struct ApiDoc;

/// Operations under `/api/admin/` require the `X-Auth` session cookie.
pub open spec fn needs_cookie_auth(path: Seq<char>) -> bool {
    starts_with(path, "/api/admin/"@)
}

/// Whether the operations of a documented path require the session
/// cookie.
pub fn requires_cookie_auth(path: &str) -> (b: bool)
    ensures
        b == needs_cookie_auth(path@),
{
    let v = chars_of(path);
    let prefix = chars_of("/api/admin/");
    starts_with_exec(&v, &prefix)
}

} // verus!
