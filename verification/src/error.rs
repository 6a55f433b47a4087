//! The error every API operation reports: an HTTP status and a message.
use crate::text::chars_of;
use crate::text::string_from;
use vstd::prelude::*;

verus! {

/// The JSON body of an error response: `{"error": message}`.
#[derive(Debug)]
pub struct ApiErrorResponse {
    pub error: String,
}

/// An HTTP status code with a human-readable message.
#[derive(Debug)]
pub struct ApiError {
    status: u16,
    message: String,
}

impl ApiError {
    /// The HTTP status code.
    pub closed spec fn code(&self) -> u16 {
        self.status
    }

    /// The message text.
    pub closed spec fn text(&self) -> Seq<char> {
        self.message@
    }

    /// The error has status `code` and message `msg`.
    pub open spec fn is(&self, code: u16, msg: Seq<char>) -> bool {
        self.code() == code && self.text() == msg
    }

    /// 400 Bad Request.
    pub fn bad_request(message: &str) -> (e: Self)
        ensures
            e.is(400, message@),
    {
        Self::new(400, message)
    }

    /// 400 Bad Request with an owned message.
    pub fn bad_request_owned(message: String) -> (e: Self)
        ensures
            e.is(400, message@),
    {
        ApiError { status: 400, message }
    }

    /// The status code carried by this error.
    pub fn status_code(&self) -> (c: u16)
        ensures
            c == self.code(),
    {
        self.status
    }

    /// 404 Not Found.
    pub fn not_found(message: &str) -> (e: Self)
        ensures
            e.is(404, message@),
    {
        Self::new(404, message)
    }

    /// 500 Internal Server Error.
    pub fn internal(message: &str) -> (e: Self)
        ensures
            e.is(500, message@),
    {
        Self::new(500, message)
    }

    /// 401 Unauthorized with the message `unauthorized`.
    pub fn unauthorized() -> (e: Self)
        ensures
            e.is(401, "unauthorized"@),
    {
        Self::new(401, "unauthorized")
    }

    /// 401 Unauthorized with a custom message.
    pub fn unauthorized_with(message: &str) -> (e: Self)
        ensures
            e.is(401, message@),
    {
        Self::new(401, message)
    }

    /// 403 Forbidden with the message `forbidden`.
    pub fn forbidden() -> (e: Self)
        ensures
            e.is(403, "forbidden"@),
    {
        Self::new(403, "forbidden")
    }

    /// 403 Forbidden with a custom message.
    pub fn forbidden_with(message: &str) -> (e: Self)
        ensures
            e.is(403, message@),
    {
        Self::new(403, message)
    }

    /// 409 Conflict.
    pub fn conflict(message: &str) -> (e: Self)
        ensures
            e.is(409, message@),
    {
        Self::new(409, message)
    }

    /// 503 Service Unavailable.
    pub fn service_unavailable(message: &str) -> (e: Self)
        ensures
            e.is(503, message@),
    {
        Self::new(503, message)
    }

    /// An error with the given status and message.
    pub fn new(status: u16, message: &str) -> (e: Self)
        ensures
            e.is(status, message@),
    {
        let v = chars_of(message);
        ApiError { status, message: string_from(&v) }
    }

    /// The status and JSON body of the HTTP response for this error.
    pub fn into_response(self) -> (r: (u16, ApiErrorResponse))
        ensures
            r.0 == self.code(),
            r.1.error@ == self.text(),
    {
        (self.status, ApiErrorResponse { error: self.message })
    }
}

/// `r` is an error with status `code` and message `msg`.
pub open spec fn fails_with<T>(r: Result<T, ApiError>, code: u16, msg: Seq<char>) -> bool {
    match r {
        Err(e) => e.is(code, msg),
        Ok(_) => false,
    }
}

/// `r` is `Ok` when `e` is `None`, and otherwise a 400 with the message `e`.
pub open spec fn bad_request_outcome<T>(r: Result<T, ApiError>, e: Option<Seq<char>>) -> bool {
    match e {
        None => r is Ok,
        Some(m) => fails_with(r, 400, m),
    }
}

/// The first of two possible errors.
pub open spec fn first_error(a: Option<Seq<char>>, b: Option<Seq<char>>) -> Option<Seq<char>> {
    if a is Some {
        a
    } else {
        b
    }
}


/// Maps a database failure to the uniform 500 response; the failure's
/// own text is not shown to the client.
pub fn map_db_err<E>(e: E) -> (r: ApiError)
    ensures
        r.is(500, "Database operation failed"@),
{
    ApiError::internal("Database operation failed")
}

} // verus!
