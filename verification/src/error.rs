use vstd::prelude::*;

verus! {

/// Expected failures with stable, non-sensitive public messages.
#[derive(Debug, Clone, Copy, PartialEq, Eq, Structural)]
pub enum AgyError {
    /// User input could not form one valid downstream request.
    InvalidCommand,
    /// The configured Antigravity executable could not launch.
    Unavailable,
    /// The downstream deadline elapsed.
    Timeout,
    /// Antigravity returned a non-zero status.
    ProcessFailed,
    /// Antigravity output did not satisfy the source contract.
    OutputInvalid,
    /// The selected model was not present in live model discovery.
    UnknownModel,
    /// The requested output target could not be replaced atomically.
    OutputWrite,
}

/// The stable public process status of each failure.
pub open spec fn exit_status(error: AgyError) -> u8 {
    match error {
        AgyError::InvalidCommand | AgyError::OutputWrite => 2,
        AgyError::Unavailable => 3,
        AgyError::Timeout => 4,
        AgyError::ProcessFailed => 5,
        AgyError::OutputInvalid => 6,
        AgyError::UnknownModel => 7,
    }
}

impl AgyError {
    /// Map a typed failure to the stable public process status.
    pub fn exit_code(&self) -> (code: u8)
        ensures
            code == exit_status(*self),
    {
        match self {
            AgyError::InvalidCommand | AgyError::OutputWrite => 2,
            AgyError::Unavailable => 3,
            AgyError::Timeout => 4,
            AgyError::ProcessFailed => 5,
            AgyError::OutputInvalid => 6,
            AgyError::UnknownModel => 7,
        }
    }
}

} // verus!

verus! {

/// Every failure exits with a non-zero status between 2 and 7.
pub proof fn law_failures_exit_nonzero(error: AgyError)
    ensures
        2 <= exit_status(error) <= 7,
{
}

} // verus!
