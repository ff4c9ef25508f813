//! The error taxonomy shared by every stage of the pipeline.

use vstd::prelude::*;

verus! {

/// Every way a run can fail, in the order the stages can raise them.
///
/// - `InvalidDate`: the input label is not a valid "Month Day" of the
///   reference leap year.
/// - `RecordNotFound`: the document has no line starting with the target
///   label, or the successor boundary label never appears after it.
/// - `MalformedRecord`: a located block is too short or has no
///   attribution-marked line.
/// - `CorrectionFailed`: the correction collaborator reported an error
///   (with its message, when one was given) or returned no content.
/// - `Transport`: the document fetch failed; raised only by the unverified
///   boundary code, carried here so one taxonomy covers the whole run.
#[derive(Debug)]
pub enum PipelineError {
    InvalidDate,
    RecordNotFound,
    MalformedRecord,
    CorrectionFailed { message: Option<String> },
    Transport { detail: String },
}

impl PipelineError {
    /// What `describe` returns for each variant.
    pub open spec fn describe_view(&self) -> Seq<char> {
        match self {
            PipelineError::InvalidDate => "invalid date label"@,
            PipelineError::RecordNotFound => "no matching record in the document"@,
            PipelineError::MalformedRecord => "located block has no attribution line"@,
            PipelineError::CorrectionFailed { message } => match message {
                Some(m) => "text correction failed: "@ + m@,
                None => "text correction failed"@,
            },
            PipelineError::Transport { detail } => "document fetch failed: "@ + detail@,
        }
    }

    /// A short human-readable description, for the boundary code to print.
    pub fn describe(&self) -> (r: String)
        ensures
            r@ == self.describe_view(),
    {
        match self {
            PipelineError::InvalidDate => String::from_str("invalid date label"),
            PipelineError::RecordNotFound => String::from_str("no matching record in the document"),
            PipelineError::MalformedRecord => String::from_str("located block has no attribution line"),
            PipelineError::CorrectionFailed { message } => {
                match message {
                    Some(m) => String::from_str("text correction failed: ").concat(m.as_str()),
                    None => String::from_str("text correction failed"),
                }
            },
            PipelineError::Transport { detail } => {
                String::from_str("document fetch failed: ").concat(detail.as_str())
            },
        }
    }
}

} // verus!
