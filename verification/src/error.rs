//! The single outward-facing error type of the core.
//!
//! The proxy layer is the exclusive source of `DomainCrash`; every other
//! kind originates inside a domain and propagates unchanged.

use vstd::prelude::*;

verus! {

/// Error kinds surfaced by the domain core.
#[derive(Clone, Copy, Debug, PartialEq, Eq, Structural)]
pub enum AlienError {
    /// The call traversed a proxy whose domain is inactive, or the domain
    /// crashed while the call was in flight.
    DomainCrash,
    /// An argument was outside the range the callee accepts.
    InvalidArg,
    /// A named resource (file, peer domain, table entry) does not exist.
    NotFound,
    /// A device or transfer failure inside a domain.
    IoFailure,
    /// The operation is not offered by this capability.
    Unsupported,
    /// The call was interrupted by a pending signal.
    Interrupted,
    /// Any failure not covered by the other kinds, including allocation
    /// failure of the shared heap.
    Other,
}

/// Result type used by every fallible operation of the core.
pub type AlienResult<T> = Result<T, AlienError>;

} // verus!
