//! Error kinds of the pipeline execution core.
use vstd::prelude::*;
use vstd::string::*;

verus! {

/// Everything that can go wrong while building or driving a run.
#[derive(Debug, Clone, PartialEq, Eq)]
pub enum RunError {
    /// A required builder input is absent; holds the description of the
    /// missing field, e.g. `"run id"`.
    ConfigMissing(String),
    /// The pipeline document is malformed.
    PipelineParse,
    /// The proxy cannot resolve the pipeline name to a pipeline file.
    PipelineNotFound,
    /// The machine or container target could not be set up.
    PlatformInit,
    /// An artifact push or get failed.
    TransferFailure,
    /// A shell command exited nonzero or could not be spawned.
    ShellFailure,
    /// The stop signal was observed at a checkpoint.
    Cancelled,
    /// A supervisor IPC message was malformed.
    IpcProtocol,
    /// The socket has no authenticated user.
    Auth,
}

impl RunError {
    /// The message of a `ConfigMissing` error, as the builder reports it.
    pub open spec fn spec_missing_message(field: Seq<char>) -> Seq<char> {
        "no "@ + field + " provided"@
    }

    /// A human-readable description of the error.
    pub fn as_text(&self) -> (r: String)
        ensures
            self matches RunError::ConfigMissing(f) ==> r@ == Self::spec_missing_message(f@),
            self is PipelineParse ==> r@ == "malformed pipeline"@,
            self is PipelineNotFound ==> r@ == "pipeline file not found"@,
            self is PlatformInit ==> r@ == "could not initialize the platform"@,
            self is TransferFailure ==> r@ == "artifact transfer failed"@,
            self is ShellFailure ==> r@ == "command execution failed"@,
            self is Cancelled ==> r@ == "run cancelled"@,
            self is IpcProtocol ==> r@ == "malformed supervisor message"@,
            self is Auth ==> r@ == "no authenticated user"@,
    {
        match self {
            RunError::ConfigMissing(field) => {
                let r = String::from_str("no ");
                let r = r.concat(field.as_str());
                r.concat(" provided")
            },
            RunError::PipelineParse => String::from_str("malformed pipeline"),
            RunError::PipelineNotFound => String::from_str("pipeline file not found"),
            RunError::PlatformInit => String::from_str("could not initialize the platform"),
            RunError::TransferFailure => String::from_str("artifact transfer failed"),
            RunError::ShellFailure => String::from_str("command execution failed"),
            RunError::Cancelled => String::from_str("run cancelled"),
            RunError::IpcProtocol => String::from_str("malformed supervisor message"),
            RunError::Auth => String::from_str("no authenticated user"),
        }
    }
}

} // verus!
