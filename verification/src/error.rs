use vstd::prelude::*;

verus! {

/// Failure taxonomy of the pipeline.
///
/// Every layer surfaces errors upward unchanged; the diagnostic text carried
/// by a variant is exactly what the failing layer produced.
#[derive(Debug)]
pub enum PipelineError {
    /// A required input (input file, output directory, chunk duration,
    /// chunk list) was not set or not positive.
    Configuration { detail: String },
    /// A directory or file could not be created, read or written.
    Filesystem { detail: String },
    /// The external tool exited with a non-zero status; `detail` holds the
    /// captured error-stream text verbatim.
    ExternalProcess { detail: String },
    /// The external tool reported success but produced no usable output.
    EmptyResult,
    /// The remote completion service answered with a non-success status or
    /// an empty candidate list.
    RemoteApi { detail: String },
}

impl PipelineError {
    /// The diagnostic text of this error, for display by a caller.
    pub fn detail_text(&self) -> (r: &str)
        ensures
            match self {
                PipelineError::Configuration { detail } => r@ == detail@,
                PipelineError::Filesystem { detail } => r@ == detail@,
                PipelineError::ExternalProcess { detail } => r@ == detail@,
                PipelineError::EmptyResult => r@ == "No chunks were created"@,
                PipelineError::RemoteApi { detail } => r@ == detail@,
            },
    {
        match self {
            PipelineError::Configuration { detail } => detail.as_str(),
            PipelineError::Filesystem { detail } => detail.as_str(),
            PipelineError::ExternalProcess { detail } => detail.as_str(),
            PipelineError::EmptyResult => "No chunks were created",
            PipelineError::RemoteApi { detail } => detail.as_str(),
        }
    }
}

} // verus!
