use daily_stoic::correct::apply_corrections;
use daily_stoic::correct::correct_record;
use daily_stoic::correct::extract_corrected;
use daily_stoic::correct::Corrector;
use daily_stoic::correct::EchoCorrector;
use daily_stoic::correct::ServiceReply;
use daily_stoic::errors::PipelineError;
use daily_stoic::segment::DailyRecord;
use vstd::prelude::Seq;

#[test]
fn extract_fails_on_a_reported_error_with_message() {
    let reply = ServiceReply::Failure { message: Some("quota exceeded".to_string()) };
    match extract_corrected(reply) {
        Err(PipelineError::CorrectionFailed { message }) => {
            assert_eq!(message.as_deref(), Some("quota exceeded"));
        }
        other => panic!("expected CorrectionFailed, got {:?}", other),
    }
}

#[test]
fn extract_fails_on_a_reported_error_without_message() {
    let reply = ServiceReply::Failure { message: None };
    match extract_corrected(reply) {
        Err(PipelineError::CorrectionFailed { message }) => assert!(message.is_none()),
        other => panic!("expected CorrectionFailed, got {:?}", other),
    }
}

#[test]
fn extract_fails_on_missing_content() {
    let reply = ServiceReply::Payload { content: None };
    assert!(matches!(
        extract_corrected(reply),
        Err(PipelineError::CorrectionFailed { message: None })
    ));
}

#[test]
fn extract_returns_the_content() {
    let reply = ServiceReply::Payload { content: Some("fixed text".to_string()) };
    assert_eq!(extract_corrected(reply).unwrap(), "fixed text");
}

struct UpperCorrector;

impl Corrector for UpperCorrector {
    fn succeeds(&self, _text: Seq<char>) -> bool {
        true
    }

    fn corrected(&self, text: Seq<char>) -> Seq<char> {
        text
    }

    fn correct(&self, text: &str) -> Result<String, PipelineError> {
        Ok(text.to_uppercase())
    }
}

struct BrokenCorrector;

impl Corrector for BrokenCorrector {
    fn succeeds(&self, _text: Seq<char>) -> bool {
        false
    }

    fn corrected(&self, text: Seq<char>) -> Seq<char> {
        text
    }

    fn correct(&self, _text: &str) -> Result<String, PipelineError> {
        Err(PipelineError::CorrectionFailed { message: Some("service down".to_string()) })
    }
}

fn sample_record() -> DailyRecord {
    DailyRecord {
        date: "March 3".to_string(),
        title: "Title".to_string(),
        quote: "some quote".to_string(),
        attribution: "\u{2014}Someone".to_string(),
        explanation: "some explanation".to_string(),
    }
}

#[test]
fn applying_two_successes_substitutes_both_fields() {
    let out = apply_corrections(
        sample_record(),
        Ok("fixed quote".to_string()),
        Ok("fixed explanation".to_string()),
    )
    .unwrap();
    assert_eq!(out.quote, "fixed quote");
    assert_eq!(out.explanation, "fixed explanation");
    assert_eq!(out.date, "March 3");
    assert_eq!(out.title, "Title");
    assert_eq!(out.attribution, "\u{2014}Someone");
}

#[test]
fn applying_a_failure_propagates_it_and_yields_no_record() {
    let failure = PipelineError::CorrectionFailed { message: Some("first".to_string()) };
    match apply_corrections(sample_record(), Err(failure), Ok("fixed".to_string())) {
        Err(PipelineError::CorrectionFailed { message }) => {
            assert_eq!(message.as_deref(), Some("first"));
        }
        other => panic!("expected the quote's failure, got {:?}", other),
    }
    let failure = PipelineError::CorrectionFailed { message: None };
    match apply_corrections(sample_record(), Ok("fixed".to_string()), Err(failure)) {
        Err(PipelineError::CorrectionFailed { message }) => assert!(message.is_none()),
        other => panic!("expected the explanation's failure, got {:?}", other),
    }
}

#[test]
fn correction_replaces_only_quote_and_explanation() {
    let out = correct_record(sample_record(), &UpperCorrector).unwrap();
    assert_eq!(out.date, "March 3");
    assert_eq!(out.title, "Title");
    assert_eq!(out.quote, "SOME QUOTE");
    assert_eq!(out.attribution, "\u{2014}Someone");
    assert_eq!(out.explanation, "SOME EXPLANATION");
}

#[test]
fn correction_on_already_corrected_text_changes_nothing() {
    let out = correct_record(sample_record(), &EchoCorrector).unwrap();
    let original = sample_record();
    assert_eq!(out.date, original.date);
    assert_eq!(out.title, original.title);
    assert_eq!(out.quote, original.quote);
    assert_eq!(out.attribution, original.attribution);
    assert_eq!(out.explanation, original.explanation);
}

#[test]
fn a_failed_correction_yields_no_record() {
    match correct_record(sample_record(), &BrokenCorrector) {
        Err(PipelineError::CorrectionFailed { message }) => {
            assert_eq!(message.as_deref(), Some("service down"));
        }
        other => panic!("expected CorrectionFailed, got {:?}", other),
    }
}
