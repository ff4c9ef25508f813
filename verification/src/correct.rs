//! The correction pipeline: interpret the correction collaborator's reply,
//! and finalize a record by substituting the corrected quote and
//! explanation — all of both, or nothing.

use vstd::prelude::*;
use crate::errors::PipelineError;
use crate::segment::DailyRecord;
use crate::segment::RecordView;

verus! {

/// A correction reply, reduced to what the pipeline reads of it: either the
/// collaborator reported an error (with its message, when one was present),
/// or it answered, with the content field that may still be absent.
pub enum ServiceReply {
    Failure { message: Option<String> },
    Payload { content: Option<String> },
}

/// What `extract_corrected` returns for each reply: a reported error fails
/// with its message, a missing content field fails without one, and
/// otherwise the content is the corrected text.
pub open spec fn extract_spec(reply: ServiceReply) -> Result<String, PipelineError> {
    match reply {
        ServiceReply::Failure { message } => Err(PipelineError::CorrectionFailed { message }),
        ServiceReply::Payload { content } => match content {
            Some(text) => Ok(text),
            None => Err(PipelineError::CorrectionFailed { message: None }),
        },
    }
}

/// Interpret the collaborator's reply: any reported error is a failure
/// (carrying its message when present), a missing content field is a
/// failure, and otherwise the corrected text is returned.
pub fn extract_corrected(reply: ServiceReply) -> (r: Result<String, PipelineError>)
    ensures
        r == extract_spec(reply),
{
    match reply {
        ServiceReply::Failure { message } => Err(PipelineError::CorrectionFailed { message }),
        ServiceReply::Payload { content } => match content {
            Some(text) => Ok(text),
            None => Err(PipelineError::CorrectionFailed { message: None }),
        },
    }
}

/// The correction collaborator as the pipeline sees it: text in, corrected
/// text or a failure out. The boundary code implements it over the real
/// service; a test can substitute a deterministic stub.
pub trait Corrector {
    /// Whether the collaborator succeeds on this input.
    spec fn succeeds(&self, text: Seq<char>) -> bool;

    /// The corrected text, when it succeeds.
    spec fn corrected(&self, text: Seq<char>) -> Seq<char>;

    /// Correct one field's text; a failure is a `CorrectionFailed`.
    fn correct(&self, text: &str) -> (r: Result<String, PipelineError>)
        ensures
            self.succeeds(text@) ==> (r matches Ok(c) && c@ == self.corrected(text@)),
            !self.succeeds(text@) ==> r matches Err(PipelineError::CorrectionFailed {
                message: _,
            }),
    ;
}

/// A deterministic stand-in for the collaborator: it returns every text
/// unchanged, so the pipeline can run without the external service.
pub struct EchoCorrector;

impl Corrector for EchoCorrector {
    open spec fn succeeds(&self, text: Seq<char>) -> bool {
        true
    }

    open spec fn corrected(&self, text: Seq<char>) -> Seq<char> {
        text
    }

    fn correct(&self, text: &str) -> (r: Result<String, PipelineError>) {
        Ok(text.to_owned())
    }
}

/// A record with its quote and explanation replaced.
pub open spec fn with_corrections(v: RecordView, quote: Seq<char>, explanation: Seq<char>) -> RecordView {
    RecordView { quote, explanation, ..v }
}

/// Substitute the two correction outcomes into the record: both or
/// neither. The quote's failure, then the explanation's, is propagated
/// unchanged, and no partially corrected record is produced.
pub fn apply_corrections(
    rec: DailyRecord,
    quote: Result<String, PipelineError>,
    explanation: Result<String, PipelineError>,
) -> (r: Result<DailyRecord, PipelineError>)
    ensures
        match (quote, explanation) {
            (Ok(q), Ok(x)) => r matches Ok(out) && out@ == with_corrections(rec@, q@, x@),
            (Err(e), _) => r matches Err(err) && err == e,
            (Ok(_), Err(e)) => r matches Err(err) && err == e,
        },
{
    let q = match quote {
        Ok(q) => q,
        Err(e) => {
            return Err(e);
        },
    };
    let x = match explanation {
        Ok(x) => x,
        Err(e) => {
            return Err(e);
        },
    };
    let out = DailyRecord {
        date: rec.date,
        title: rec.title,
        quote: q,
        attribution: rec.attribution,
        explanation: x,
    };
    proof {
        assert(out@ =~= with_corrections(rec@, out.quote@, out.explanation@));
    }
    Ok(out)
}

/// Correct the quote and the explanation independently and substitute both
/// into the record. Succeeds exactly when both corrections succeed; on any
/// failure no partially corrected record is produced.
pub fn correct_record<C: Corrector>(rec: DailyRecord, corrector: &C) -> (r: Result<
    DailyRecord,
    PipelineError,
>)
    ensures
        corrector.succeeds(rec@.quote) && corrector.succeeds(rec@.explanation) ==> (r matches Ok(
            out,
        ) && out@ == with_corrections(
            rec@,
            corrector.corrected(rec@.quote),
            corrector.corrected(rec@.explanation),
        )),
        !(corrector.succeeds(rec@.quote) && corrector.succeeds(rec@.explanation)) ==> r matches Err(
            PipelineError::CorrectionFailed { message: _ },
        ),
{
    let quote = match corrector.correct(rec.quote.as_str()) {
        Ok(q) => q,
        Err(e) => {
            return Err(e);
        },
    };
    let explanation = match corrector.correct(rec.explanation.as_str()) {
        Ok(x) => x,
        Err(e) => {
            return Err(e);
        },
    };
    let out = DailyRecord {
        date: rec.date,
        title: rec.title,
        quote,
        attribution: rec.attribution,
        explanation,
    };
    proof {
        if corrector.succeeds(rec@.quote) && corrector.succeeds(rec@.explanation) {
            assert(out@ =~= with_corrections(
                rec@,
                corrector.corrected(rec@.quote),
                corrector.corrected(rec@.explanation),
            ));
        }
    }
    Ok(out)
}

/// Correction is idempotent at the record level: when the collaborator
/// hands both fields back unchanged, the finalized record is the record
/// itself.
pub proof fn lemma_identity_correction(v: RecordView)
    ensures
        with_corrections(v, v.quote, v.explanation) == v,
{
    assert(with_corrections(v, v.quote, v.explanation) =~= v);
}

} // verus!
