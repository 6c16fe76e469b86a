use vstd::prelude::*;

verus! {

/// Why a submission was refused.
#[derive(Clone, Copy, Debug, PartialEq, Eq, Structural)]
pub enum GateError {
    /// The caller is not one of the configured approvers.
    UnauthorizedApprover,
    /// Quorum was reached but the resulting state failed validation.
    InvalidResultingState,
    /// The payload could not be serialized into a fingerprint.
    SerializationFailure,
}

} // verus!
