//! Device certificates: requests, and when a new certificate may be issued.
use crate::clock::unix_now_nanos;
use crate::error::fails_with;
use crate::error::ApiError;
use time::OffsetDateTime;
use vstd::prelude::*;

verus! {

/// A request to issue a device certificate.
#[derive(Debug)]
pub struct IssueCertRequest {
    pub product_id: String,
    pub device_id: String,
    /// Issue even when a valid certificate exists.
    pub force: bool,
    pub start_at: OffsetDateTime,
    pub end_at: OffsetDateTime,
}

/// An issued certificate and its private key, PEM-encoded.
#[derive(Debug)]
pub struct IssueCertResponse {
    pub cert_pem: String,
    pub key_pem: String,
}

/// A change of a device certificate's status.
#[derive(Debug)]
pub struct UpdateCertStatusRequest {
    pub product_id: String,
    pub device_id: String,
    pub status: i16,
}

/// The CA certificate, PEM-encoded.
#[derive(Debug)]
pub struct CaCertResponse {
    pub ca_pem: String,
}

/// The certificate a device already has.
pub struct ExistingCert {
    /// Its status is normal (not revoked).
    pub normal: bool,
    /// The end of its validity, in nanoseconds since the Unix epoch.
    pub end_at_unix_nanos: i128,
}

/// A device's existing certificate blocks a new one: the request does not
/// force, and the certificate is normal and still valid at `now`.
pub open spec fn issue_blocked(force: bool, existing: Option<ExistingCert>, now: int) -> bool {
    !force && (existing matches Some(c) && c.normal && c.end_at_unix_nanos > now)
}

/// Checks that a certificate may be issued at `now` (nanoseconds since the
/// Unix epoch), given the device's existing certificate.
pub fn check_cert_issue(force: bool, existing: Option<ExistingCert>, now_unix_nanos: i128) -> (r:
    Result<(), ApiError>)
    ensures
        r is Ok <==> !issue_blocked(force, existing, now_unix_nanos as int),
        r is Err ==> fails_with(r, 400, "Certificate already exists and is valid"@),
{
    if !force {
        if let Some(c) = existing {
            if c.normal && c.end_at_unix_nanos > now_unix_nanos {
                return Err(ApiError::bad_request("Certificate already exists and is valid"));
            }
        }
    }
    Ok(())
}

/// Checks that a certificate may be issued now: the clock is read only
/// when an existing normal certificate could block the request, and the
/// outcome is the one `check_cert_issue` gives at the time read.
pub fn check_cert_issue_now(force: bool, existing: Option<ExistingCert>) -> (r: Result<(), ApiError>)
    ensures
        exists|now: i128|
            (r is Ok <==> !issue_blocked(force, existing, now as int)) && (r is Err ==> fails_with(
                r,
                400,
                "Certificate already exists and is valid"@,
            )),
{
    let ghost g = existing;
    let could_block = match &existing {
        Some(c) => !force && c.normal,
        None => false,
    };
    if !could_block {
        let r = check_cert_issue(force, existing, 0);
        assert(r is Ok <==> !issue_blocked(force, g, 0i128 as int));
        return r;
    }
    let now = unix_now_nanos();
    let r = check_cert_issue(force, existing, now);
    assert(r is Ok <==> !issue_blocked(force, g, now as int));
    r
}

/// A certificate looked up by id, or 404.
pub fn require_cert<T>(cert: Option<T>) -> (r: Result<T, ApiError>)
    ensures
        match cert {
            Some(c) => r == Ok::<T, ApiError>(c),
            None => fails_with(r, 404, "Certificate not found"@),
        },
{
    match cert {
        Some(c) => Ok(c),
        None => Err(ApiError::not_found("Certificate not found")),
    }
}

} // verus!
