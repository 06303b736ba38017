//! The error kinds that a wake attempt can surface.

use vstd::prelude::*;

verus! {

/// Why resolving a host name against the ARP table failed.
#[derive(Clone, Copy, Debug, PartialEq, Eq, Structural)]
pub enum ResolutionFailure {
    /// No entry matched the requested pattern.
    NotFound,
    /// More than one entry matched, and the policy demanded a unique one.
    Ambiguous,
}

/// Everything that can go wrong between a user-supplied token and a
/// delivered datagram. The first kind is detected at the boundary, before
/// the packet is built; the three socket kinds are produced by the caller
/// that owns the socket; the last one by host-name resolution.
#[derive(Debug)]
pub enum WakeError {
    /// A MAC address was malformed or had the wrong length.
    InvalidAddress,
    /// The sending socket could not be bound to the source endpoint.
    BindError,
    /// The socket's broadcast capability could not be enabled.
    BroadcastEnableError,
    /// The datagram could not be transmitted in full.
    SendError,
    /// The host name could not be resolved to exactly one address.
    /// `candidates` lists the host names that were considered.
    ResolutionError { failure: ResolutionFailure, candidates: Vec<Vec<u8>> },
}

impl WakeError {
    /// A short, stable name for the error kind, for diagnostics.
    pub fn kind_name(&self) -> (name: &'static str)
        ensures
            self is InvalidAddress ==> name@ == "invalid address"@,
            self is BindError ==> name@ == "bind error"@,
            self is BroadcastEnableError ==> name@ == "broadcast enable error"@,
            self is SendError ==> name@ == "send error"@,
            self is ResolutionError ==> name@ == "resolution error"@,
    {
        match self {
            WakeError::InvalidAddress => "invalid address",
            WakeError::BindError => "bind error",
            WakeError::BroadcastEnableError => "broadcast enable error",
            WakeError::SendError => "send error",
            WakeError::ResolutionError { .. } => "resolution error",
        }
    }
}

/// The HTTP status code that a serving layer reports for the outcome of a
/// wake attempt: `202 Accepted` on success, `500 Internal Server Error` on
/// any failure.
pub fn response_status(outcome: &Result<(), WakeError>) -> (status: u16)
    ensures
        outcome is Ok ==> status == 202,
        outcome is Err ==> status == 500,
{
    match outcome {
        Ok(_) => 202,
        Err(_) => 500,
    }
}

} // verus!
