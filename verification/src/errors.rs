use vstd::prelude::*;

verus! {

/// The single flat failure channel of the pipeline, tagged by failure class.
/// The boundary exposes only the message string of a failure.
#[derive(Debug)]
pub enum PipelineError {
    /// The request was malformed and was rejected before any I/O.
    InputValidation(String),
    /// A local filesystem operation failed.
    ResourceFailure(String),
    /// The image could not be decoded, or could not be brought under budget.
    EncodingFailure(String),
    /// The remote host answered with a non-success status or a malformed body.
    RemoteFailure(String),
}

impl PipelineError {
    /// The user-facing description of the failure.
    pub open spec fn spec_message(&self) -> Seq<char> {
        match self {
            PipelineError::InputValidation(m) => m@,
            PipelineError::ResourceFailure(m) => m@,
            PipelineError::EncodingFailure(m) => m@,
            PipelineError::RemoteFailure(m) => m@,
        }
    }

    /// Converts the failure to its user-facing string.
    pub fn message(&self) -> (r: String)
        ensures
            r@ == self.spec_message(),
    {
        match self {
            PipelineError::InputValidation(m) => m.clone(),
            PipelineError::ResourceFailure(m) => m.clone(),
            PipelineError::EncodingFailure(m) => m.clone(),
            PipelineError::RemoteFailure(m) => m.clone(),
        }
    }
}

/// The failure is a pre-I/O rejection with the given message.
pub open spec fn is_input_validation(e: PipelineError, msg: Seq<char>) -> bool {
    e matches PipelineError::InputValidation(m) && m@ == msg
}

/// The failure is an image-encoding failure with the given message.
pub open spec fn is_encoding_failure(e: PipelineError, msg: Seq<char>) -> bool {
    e matches PipelineError::EncodingFailure(m) && m@ == msg
}

/// The failure is a remote failure with the given message.
pub open spec fn is_remote_failure(e: PipelineError, msg: Seq<char>) -> bool {
    e matches PipelineError::RemoteFailure(m) && m@ == msg
}

} // verus!
