//! What can go wrong in one analysis.

use vstd::prelude::*;

verus! {

/// The failures of an analysis; each one ends the call.
#[derive(Debug)]
pub enum AnalysisError {
    /// Analysis was asked for while no endpoint is set.
    NotConfigured,
    /// No frame of the sampled batch could be read and encoded.
    NoUsableFrames,
    /// The chat service could not be reached or answered with an error status.
    Transport { detail: String },
    /// The reply is not JSON, even once a code fence is taken off; `raw` is
    /// the whole reply as it came.
    MalformedResponse { detail: String, raw: String },
    /// The reply is JSON but does not have the summary's shape.
    SchemaMismatch { detail: String },
}

impl AnalysisError {
    /// A one-line description of the failure.
    pub fn message(&self) -> (r: String)
        ensures
            self is NotConfigured ==> r@ == "Ollama provider is not configured"@,
            self is NoUsableFrames ==> r@ == "no usable image frames to analyse"@,
            self matches AnalysisError::Transport { detail } ==> r@ == "request to Ollama failed: "@
                + detail@,
            self matches AnalysisError::MalformedResponse { detail, raw } ==> r@
                == "Ollama reply is not valid JSON: "@ + detail@ + "; raw="@ + raw@,
            self matches AnalysisError::SchemaMismatch { detail } ==> r@
                == "Ollama reply does not match the summary schema: "@ + detail@,
    {
        match self {
            AnalysisError::NotConfigured => "Ollama provider is not configured".to_string(),
            AnalysisError::NoUsableFrames => "no usable image frames to analyse".to_string(),
            AnalysisError::Transport { detail } => {
                let mut s = "request to Ollama failed: ".to_string();
                s.append(detail.as_str());
                s
            },
            AnalysisError::MalformedResponse { detail, raw } => {
                let mut s = "Ollama reply is not valid JSON: ".to_string();
                s.append(detail.as_str());
                s.append("; raw=");
                s.append(raw.as_str());
                s
            },
            AnalysisError::SchemaMismatch { detail } => {
                let mut s = "Ollama reply does not match the summary schema: ".to_string();
                s.append(detail.as_str());
                s
            },
        }
    }
}

} // verus!
