//! The error kinds a scan can end with.

use vstd::prelude::*;

verus! {

/// Why a scan failed. Every kind is fatal: a failed scan returns no
/// partial result set.
#[derive(Debug, Clone, Copy, PartialEq, Eq, Structural)]
pub enum ScanError {
    /// A credential string did not parse, or a viewing credential could not
    /// be derived from a spending credential.
    InvalidCredentialFormat,
    /// Both credentials were supplied, but the viewing credential is not the
    /// one derivable from the spending credential.
    CredentialMismatch,
    /// Neither a spending credential nor a viewing credential was supplied.
    MissingCredential,
    /// The scan range's end does not lie strictly above its start.
    InvalidRange,
    /// A height or block-page request failed at the transport level, or, under
    /// the strict spend-check policy, a spent-record lookup did.
    EndpointUnavailable,
    /// A block-page response did not parse as a list of blocks.
    MalformedResponse,
    /// An owned record failed to decrypt, or its serial number could not be
    /// derived: a defect, not a retryable condition.
    DecryptionFailed,
}

} // verus!
