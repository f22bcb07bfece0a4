//! Error taxonomy of the protection service.
//!
//! The remote collaborators fail in two distinct ways — a transport
//! failure, and a reply whose success flag is false — and both are kept
//! apart from the benign outcomes (a rate-limited or blocked request).

use vstd::prelude::*;
use crate::text::concat_str;

verus! {

/// Low-level errors raised while talking to the collaborators.
#[derive(Debug)]
pub enum DdosError {
    /// Configuration could not be loaded or was malformed.
    Config(String),
    /// The remote counter store was unreachable or timed out.
    Redis(String),
    /// The firewall API reported or caused a failure.
    Cloudflare(String),
    /// The identity exceeded its request budget.
    RateLimitExceeded(String),
    /// The request itself was malformed.
    InvalidRequest(String),
    /// Any other internal failure.
    Internal(String),
}

/// Errors surfaced by the admission coordinator.
#[derive(Debug)]
pub enum ServiceError {
    /// The firewall API rejected or failed a rule operation.
    CloudflareError(String),
    /// The identity is blocked.
    IpBlocked(String),
    /// The identity exceeded its request budget.
    RateLimitExceeded(String),
    /// Any other internal failure.
    InternalError(String),
}

impl ServiceError {
    /// The human-readable rendering of the error.
    pub open spec fn message_spec(self) -> Seq<char> {
        match self {
            ServiceError::CloudflareError(m) => "Cloudflare error: "@ + m@,
            ServiceError::IpBlocked(m) => "IP blocked: "@ + m@,
            ServiceError::RateLimitExceeded(m) => "Rate limit exceeded: "@ + m@,
            ServiceError::InternalError(m) => "Internal error: "@ + m@,
        }
    }

    /// Renders the error for logs and operators.
    pub fn message(&self) -> (r: String)
        ensures
            r@ == self.message_spec(),
    {
        match self {
            ServiceError::CloudflareError(m) => concat_str("Cloudflare error: ", m.as_str()),
            ServiceError::IpBlocked(m) => concat_str("IP blocked: ", m.as_str()),
            ServiceError::RateLimitExceeded(m) => concat_str("Rate limit exceeded: ", m.as_str()),
            ServiceError::InternalError(m) => concat_str("Internal error: ", m.as_str()),
        }
    }
}

impl From<DdosError> for ServiceError {
    /// Folds a collaborator error into the coordinator's taxonomy.
    fn from(e: DdosError) -> (r: Self) {
        match e {
            DdosError::Config(m) => ServiceError::InternalError(m),
            DdosError::Redis(m) => ServiceError::InternalError(m),
            DdosError::Cloudflare(m) => ServiceError::CloudflareError(m),
            DdosError::RateLimitExceeded(m) => ServiceError::RateLimitExceeded(m),
            DdosError::InvalidRequest(m) => ServiceError::InternalError(m),
            DdosError::Internal(m) => ServiceError::InternalError(m),
        }
    }
}

impl vstd::std_specs::convert::FromSpecImpl<DdosError> for ServiceError {
    open spec fn obeys_from_spec() -> bool {
        true
    }

    open spec fn from_spec(e: DdosError) -> Self {
        match e {
            DdosError::Config(m) => ServiceError::InternalError(m),
            DdosError::Redis(m) => ServiceError::InternalError(m),
            DdosError::Cloudflare(m) => ServiceError::CloudflareError(m),
            DdosError::RateLimitExceeded(m) => ServiceError::RateLimitExceeded(m),
            DdosError::InvalidRequest(m) => ServiceError::InternalError(m),
            DdosError::Internal(m) => ServiceError::InternalError(m),
        }
    }
}

} // verus!
