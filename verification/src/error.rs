//! Refusals: the HTTP status and the stable label a request is answered with.

use vstd::prelude::*;

verus! {

/// A refusal as it goes on the wire. The label never carries tenant data.
#[derive(Clone, Debug, PartialEq, Eq)]
pub struct ApiError {
    pub status: u16,
    pub label: &'static str,
    pub request_id: Option<String>,
}

/// The refusal with this status and label, and no request id.
pub open spec fn refusal(status: u16, label: &'static str) -> ApiError {
    ApiError { status, label, request_id: None }
}

/// The error answers this status and label.
pub open spec fn says(e: ApiError, status: u16, label: Seq<char>) -> bool {
    e.status == status && e.label@ == label
}

impl ApiError {
    /// A refusal that carries no request.
    pub fn with_status(status: u16, label: &'static str) -> (r: Self)
        ensures
            r == refusal(status, label),
    {
        ApiError { status, label, request_id: None }
    }

    /// A fault of the server itself.
    pub fn internal(label: &'static str) -> (r: Self)
        ensures
            r == refusal(500, label),
    {
        ApiError { status: 500, label, request_id: None }
    }

    /// A refusal of an admitted request.
    pub fn of_request(status: u16, label: &'static str, request_id: &str) -> (r: Self)
        ensures
            says(r, status, label@),
            r.request_id is Some,
            (r.request_id->0)@ == request_id@,
    {
        ApiError { status, label, request_id: Some(request_id.to_owned()) }
    }
}

/// Why a request carries no usable bearer token.
#[derive(Clone, Copy, Debug, PartialEq, Eq, Structural)]
pub enum RppRejectReason {
    MissingAuthorization,
    MalformedJwt,
}

// ---------------------------------------------------------------------------
// Laws
// ---------------------------------------------------------------------------


/// What an error says is its status and its label, and a refusal has just these.
pub proof fn law_errors_say_status_and_label(e: ApiError, status: u16, label: &'static str)
    ensures
        says(e, status, label@) <==> e.status == status && e.label@ == label@,
        refusal(status, label).status == status,
        refusal(status, label).label == label,
        refusal(status, label).request_id is None,
{
}

} // verus!
