//! Error taxonomy of the service: failures of the external subprocess chain
//! and failures of the result store.

use vstd::prelude::*;

verus! {

/// Failure of the external tool chain: a subprocess could not be started,
/// the pipe between the two tools could not be wired, or a tool exited
/// with a failure status.
#[derive(Clone, Copy, PartialEq, Eq, Structural, Debug)]
pub enum ExternalToolError {
    /// The fetch tool could not be spawned.
    FetchSpawnFailed,
    /// The fetch tool's standard output could not be connected to the
    /// audio tool's standard input.
    PipeUnavailable,
    /// The audio tool could not be spawned.
    AudioSpawnFailed,
    /// A tool started but exited with a failure status.
    ToolFailed,
}

impl ExternalToolError {
    /// A short human-readable message, suitable for a plain-text error body.
    pub fn message(&self) -> (m: &'static str)
        ensures
            m@ == self.spec_message(),
    {
        match self {
            ExternalToolError::FetchSpawnFailed => "could not start the fetch tool",
            ExternalToolError::PipeUnavailable => "could not connect the tool pipeline",
            ExternalToolError::AudioSpawnFailed => "could not start the audio tool",
            ExternalToolError::ToolFailed => "an external tool exited with failure",
        }
    }

    pub open spec fn spec_message(&self) -> Seq<char> {
        match self {
            ExternalToolError::FetchSpawnFailed => "could not start the fetch tool"@,
            ExternalToolError::PipeUnavailable => "could not connect the tool pipeline"@,
            ExternalToolError::AudioSpawnFailed => "could not start the audio tool"@,
            ExternalToolError::ToolFailed => "an external tool exited with failure"@,
        }
    }
}

/// Failure of the result store: the only failure an in-memory store can
/// report is a lookup of a route that was never created.
#[derive(Clone, Copy, PartialEq, Eq, Structural, Debug)]
pub enum StoreError {
    /// The requested route does not exist in the store at all.
    NotFound,
}

} // verus!
