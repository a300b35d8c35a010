//! The ways a two-phase call ends without success. Every one is terminal.

use vstd::prelude::*;
use crate::identifier::ResourceIdentifier;

verus! {

/// Why a two-phase call failed.
#[derive(Clone, Copy, Debug, PartialEq, Eq)]
pub enum CallError {
    /// The bytes handed back by the target are not a well-formed declaration.
    FormatError,
    /// The target declared a resource that the candidate pool does not hold.
    NotFound(ResourceIdentifier),
    /// The side channel was filled by someone other than the target.
    IdentityMismatch,
    /// The side channel was empty, the target rejected the dry run, or the
    /// host answered out of turn.
    ProtocolViolation,
    /// The nested call of the real invocation failed; the code is the host's.
    HostDispatchError(u64),
}

} // verus!
