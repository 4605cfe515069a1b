//! The error type shared by every stage of the deployment pipeline.

use vstd::prelude::*;

verus! {

/// The failure modes of the deployment pipeline.
#[derive(Debug)]
pub enum AppError {
    /// An operating-system level failure, described by the offending path or call.
    Io(String),
    /// A container-orchestration invocation failed.
    DockerCommand(String),
    /// The deployment specification is invalid; the payload aggregates every
    /// violation found in one validation pass.
    InvalidConfig(String),
    /// A failure that fits no other kind.
    Unknown,
}

impl AppError {
    /// The rendering of the error, one line per error.
    pub open spec fn spec_message(&self) -> Seq<char> {
        match self {
            AppError::Io(s) => "IO error: "@ + s@,
            AppError::DockerCommand(s) => "Docker command failed: "@ + s@,
            AppError::InvalidConfig(s) => "Invalid configuration: "@ + s@,
            AppError::Unknown => "Unknown error occurred"@,
        }
    }

    /// A human-readable description of the error.
    pub fn message(&self) -> (r: String)
        ensures
            r@ == self.spec_message(),
    {
        match self {
            AppError::Io(s) => String::from_str("IO error: ").concat(s.as_str()),
            AppError::DockerCommand(s) => String::from_str("Docker command failed: ").concat(
                s.as_str(),
            ),
            AppError::InvalidConfig(s) => String::from_str("Invalid configuration: ").concat(
                s.as_str(),
            ),
            AppError::Unknown => String::from_str("Unknown error occurred"),
        }
    }
}

} // verus!
