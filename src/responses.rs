//! The request boundary: the credential check that gates every request and
//! the single mapping from error kinds to HTTP status and error envelope.
use vstd::prelude::*;
use crate::auth::{BasicAuth, guard};
use crate::repository::StoreError;

verus! {

/// Why a request failed.
pub enum ErrorKind {
    /// The `Authorization` header is missing or malformed.
    AuthenticationRejected,
    /// No record has the requested id.
    NotFound,
    /// The store failed; the description is passed on as the reason.
    StorageFailure(String),
    /// The request body does not have the expected shape.
    PayloadInvalid,
}

/// The body of every error response: `{"status": ..., "reason": ...}`.
pub struct ErrorEnvelope {
    pub status: String,
    pub reason: String,
}

/// An HTTP status code with its error envelope.
pub struct ErrorResponse {
    pub code: u16,
    pub body: ErrorEnvelope,
}

/// The endpoints of the record API.
pub enum Endpoint {
    List,
    View,
    Create,
    Update,
    Delete,
}

/// The `status` field of every error envelope.
pub open spec fn error_status() -> Seq<char> {
    seq!['e', 'r', 'r', 'o', 'r']
}

/// The status code that answers an error of kind `kind`.
pub open spec fn spec_error_code(kind: ErrorKind) -> u16 {
    match kind {
        ErrorKind::AuthenticationRejected => 401,
        ErrorKind::NotFound => 404,
        ErrorKind::StorageFailure(_) => 500,
        ErrorKind::PayloadInvalid => 422,
    }
}

/// The reason given for an error of kind `kind`.
pub open spec fn spec_error_reason(kind: ErrorKind) -> Seq<char> {
    match kind {
        ErrorKind::AuthenticationRejected => "Unauthorized."@,
        ErrorKind::NotFound => "Resource was not found."@,
        ErrorKind::StorageFailure(m) => m@,
        ErrorKind::PayloadInvalid => "Unprocessable entity."@,
    }
}

/// The error kind of a failed store operation.
pub open spec fn spec_classify(e: StoreError) -> ErrorKind {
    match e {
        StoreError::NotFound => ErrorKind::NotFound,
        StoreError::Failure(m) => ErrorKind::StorageFailure(m),
    }
}

/// The envelope sent for a missing resource.
pub fn not_found() -> (r: ErrorEnvelope)
    ensures
        r.status@ == error_status(),
        r.reason@ == "Resource was not found."@,
{
    let status = "error".to_owned();
    proof {
        reveal_strlit("error");
    }
    assert(status@ =~= error_status());
    ErrorEnvelope { status, reason: "Resource was not found.".to_owned() }
}

/// The envelope sent when credentials are missing or malformed.
pub fn unauthorized() -> (r: ErrorEnvelope)
    ensures
        r.status@ == error_status(),
        r.reason@ == "Unauthorized."@,
{
    let status = "error".to_owned();
    proof {
        reveal_strlit("error");
    }
    assert(status@ =~= error_status());
    ErrorEnvelope { status, reason: "Unauthorized.".to_owned() }
}

/// The envelope sent for a request body of the wrong shape.
pub fn unprocessable_entity() -> (r: ErrorEnvelope)
    ensures
        r.status@ == error_status(),
        r.reason@ == "Unprocessable entity."@,
{
    let status = "error".to_owned();
    proof {
        reveal_strlit("error");
    }
    assert(status@ =~= error_status());
    ErrorEnvelope { status, reason: "Unprocessable entity.".to_owned() }
}

/// The status code and envelope that answer an error of kind `kind`.
pub fn error_response(kind: ErrorKind) -> (r: ErrorResponse)
    ensures
        r.code == spec_error_code(kind),
        r.body.status@ == error_status(),
        r.body.reason@ == spec_error_reason(kind),
{
    match kind {
        ErrorKind::AuthenticationRejected => ErrorResponse { code: 401, body: unauthorized() },
        ErrorKind::NotFound => ErrorResponse { code: 404, body: not_found() },
        ErrorKind::StorageFailure(m) => {
            let status = "error".to_owned();
            proof {
                reveal_strlit("error");
            }
            assert(status@ =~= error_status());
            ErrorResponse { code: 500, body: ErrorEnvelope { status, reason: m } }
        },
        ErrorKind::PayloadInvalid => ErrorResponse { code: 422, body: unprocessable_entity() },
    }
}

/// Sorts a store failure into the error taxonomy: a missing record is
/// `NotFound`, anything else a `StorageFailure` with its description.
pub fn classify(e: StoreError) -> (r: ErrorKind)
    ensures
        r == spec_classify(e),
{
    match e {
        StoreError::NotFound => ErrorKind::NotFound,
        StoreError::Failure(m) => ErrorKind::StorageFailure(m),
    }
}

/// The response to a failed store operation.
pub fn store_error_response(e: StoreError) -> (r: ErrorResponse)
    ensures
        r.code == spec_error_code(spec_classify(e)),
        r.body.status@ == error_status(),
        r.body.reason@ == spec_error_reason(spec_classify(e)),
{
    error_response(classify(e))
}

/// The status code of a successful request to `endpoint`: 204 for a
/// delete, which has no body, and 200 otherwise.
pub fn success_code(endpoint: Endpoint) -> (r: u16)
    ensures
        r == (if endpoint is Delete { 204u16 } else { 200u16 }),
{
    match endpoint {
        Endpoint::Delete => 204,
        _ => 200,
    }
}

/// The credential check in front of every handler: the credentials of a
/// present, well-formed `Authorization` header, or the 401 response.
pub fn authenticate(header: Option<&str>) -> (r: Result<BasicAuth, ErrorResponse>)
    ensures
        match r {
            Ok(a) => header matches Some(h) && guard(h@) == Some(a@),
            Err(resp) => (header is None || guard(header->0@) is None) && resp.code == 401
                && resp.body.status@ == error_status() && resp.body.reason@ == "Unauthorized."@,
        },
{
    let found = match header {
        Some(h) => BasicAuth::from_authorization_header(h),
        None => None,
    };
    match found {
        Some(a) => Ok(a),
        None => Err(error_response(ErrorKind::AuthenticationRejected)),
    }
}

} // verus!
