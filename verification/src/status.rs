//! The codes under which failures reach the callers of the registry.

use vstd::prelude::*;

verus! {

/// The coarse code of a failed request. Causes stay on this side of the
/// boundary; the caller learns one of these and no more.
#[derive(Clone, Copy, Debug, PartialEq, Eq, Structural)]
pub enum Status {
    /// The caller is not allowed to call a debug operation.
    PermissionDenied,
    /// The configuration could not be read or is not valid.
    InvalidArgument,
    /// The launcher failed, or the log descriptor could not be duplicated.
    Internal,
    /// No identity is left to assign.
    ResourceExhausted,
}

/// The step at which starting a machine failed outside the registry.
#[derive(Clone, Copy, Debug, PartialEq, Eq, Structural)]
pub enum StartError {
    /// The descriptor that the machine should log to could not be duplicated.
    LogDescriptor,
    /// The loader rejected the configuration.
    Config,
    /// The launcher could not start the machine.
    Launch,
}

impl StartError {
    /// The code under which this failure is reported.
    pub open spec fn spec_status(self) -> Status {
        match self {
            StartError::LogDescriptor => Status::Internal,
            StartError::Config => Status::InvalidArgument,
            StartError::Launch => Status::Internal,
        }
    }

    /// The code under which this failure is reported to the caller: a rejected
    /// configuration is the caller's fault, anything else is internal.
    #[verifier::when_used_as_spec(spec_status)]
    pub fn status(self) -> (status: Status)
        ensures
            status == self.spec_status(),
    {
        match self {
            StartError::LogDescriptor => Status::Internal,
            StartError::Config => Status::InvalidArgument,
            StartError::Launch => Status::Internal,
        }
    }
}

} // verus!
