//! The error type shared by every fallible operation of the library.
use vstd::prelude::*;

use crate::component::ComponentId;
use crate::text::{concat, concat3};

verus! {

/// Every fallible operation returns `Result<T, SovdError>`.
///
/// The variants are small and do not overlap: a lookup that finds nothing,
/// a request that is rejected, a backend that cannot be reached, a missing
/// authorisation, a failed operation, a transport failure, or an internal
/// fault.
#[derive(Debug)]
pub enum SovdError {
    /// A requested entity (component, fault, operation, data item) was not found.
    NotFound {
        /// What was being looked up, e.g. `component "bcm"`.
        entity: String,
    },
    /// The request was structurally valid but semantically rejected.
    InvalidRequest(String),
    /// The backend for the given component is currently not reachable.
    BackendUnavailable(ComponentId),
    /// The caller lacks the required session or security level.
    Unauthorized,
    /// An operation execution started but terminated with a failure.
    OperationFailed {
        /// Operation identifier.
        id: String,
        /// Vendor-supplied failure reason.
        reason: String,
    },
    /// Low-level transport error (HTTP, DoIP, CAN, socket, ...).
    Transport(String),
    /// Fault inside an implementation.
    Internal(String),
}

/// The error is `NotFound` and names `entity`.
pub open spec fn is_not_found(e: SovdError, entity: Seq<char>) -> bool {
    e matches SovdError::NotFound { entity: m } && m@ == entity
}

/// The error is `InvalidRequest` with message `msg`.
pub open spec fn is_invalid_request(e: SovdError, msg: Seq<char>) -> bool {
    e matches SovdError::InvalidRequest(m) && m@ == msg
}

/// The error is `Transport` with message `msg`.
pub open spec fn is_transport(e: SovdError, msg: Seq<char>) -> bool {
    e matches SovdError::Transport(m) && m@ == msg
}

/// The error is `Internal` with message `msg`.
pub open spec fn is_internal(e: SovdError, msg: Seq<char>) -> bool {
    e matches SovdError::Internal(m) && m@ == msg
}

/// The text that describes an error.
pub open spec fn message_spec(e: SovdError) -> Seq<char> {
    match e {
        SovdError::NotFound { entity } => "not found: "@ + entity@,
        SovdError::InvalidRequest(m) => "invalid request: "@ + m@,
        SovdError::BackendUnavailable(c) => "backend unavailable for component: "@ + c.0@,
        SovdError::Unauthorized => "unauthorized"@,
        SovdError::OperationFailed { id, reason } => "operation "@ + id@ + " failed: "@ + reason@,
        SovdError::Transport(m) => "transport error: "@ + m@,
        SovdError::Internal(m) => "internal error: "@ + m@,
    }
}

impl SovdError {
    /// The text that describes the error, e.g. `not found: component "bcm"`.
    pub fn message(&self) -> (m: String)
        ensures
            m@ == message_spec(*self),
    {
        match self {
            SovdError::NotFound { entity } => concat("not found: ", entity.as_str()),
            SovdError::InvalidRequest(m) => concat("invalid request: ", m.as_str()),
            SovdError::BackendUnavailable(c) => concat(
                "backend unavailable for component: ",
                c.as_str(),
            ),
            SovdError::Unauthorized => String::from_str("unauthorized"),
            SovdError::OperationFailed { id, reason } => {
                let a = concat3("operation ", id.as_str(), " failed: ");
                concat(a.as_str(), reason.as_str())
            },
            SovdError::Transport(m) => concat("transport error: ", m.as_str()),
            SovdError::Internal(m) => concat("internal error: ", m.as_str()),
        }
    }
}

} // verus!
