use daily_stoic::errors::PipelineError;
use daily_stoic::segment::segment;

fn block(lines: &[&str]) -> Vec<String> {
    lines.iter().map(|l| l.to_string()).collect()
}

#[test]
fn segments_a_well_formed_block() {
    let lines = block(&[
        "March 3",
        "Title",
        "Line one of quote",
        "Line two of quote",
        "\u{2014}Author Name",
        "Explanation sentence.",
    ]);
    let rec = segment(&lines).unwrap();
    assert_eq!(rec.date, "March 3");
    assert_eq!(rec.title, "Title");
    assert_eq!(rec.quote, "Line one of quote Line two of quote");
    assert_eq!(rec.attribution, "\u{2014}Author Name");
    assert_eq!(rec.explanation, "Explanation sentence.");
}

#[test]
fn fails_without_an_attribution_marker() {
    let lines = block(&["March 3", "Title", "Quote line", "Explanation"]);
    assert!(matches!(segment(&lines), Err(PipelineError::MalformedRecord)));
}

#[test]
fn fails_on_blocks_shorter_than_two_lines() {
    assert!(matches!(segment(&block(&[])), Err(PipelineError::MalformedRecord)));
    assert!(matches!(segment(&block(&["March 3"])), Err(PipelineError::MalformedRecord)));
}

#[test]
fn marker_before_index_two_does_not_count() {
    let lines = block(&["\u{2014}March 3", "\u{2014}Title", "Quote line"]);
    assert!(matches!(segment(&lines), Err(PipelineError::MalformedRecord)));
}

#[test]
fn marker_directly_after_title_gives_empty_quote() {
    let lines = block(&["March 3", "Title", "\u{2014}Someone", "After."]);
    let rec = segment(&lines).unwrap();
    assert_eq!(rec.quote, "");
    assert_eq!(rec.attribution, "\u{2014}Someone");
    assert_eq!(rec.explanation, "After.");
}

#[test]
fn fields_are_trimmed_and_joined_with_spaces() {
    let lines = block(&[
        "  March 3  ",
        "\tThe Title ",
        " quote starts",
        "and ends ",
        "\u{2014}Someone ",
        "first part ",
        " second part",
    ]);
    let rec = segment(&lines).unwrap();
    assert_eq!(rec.date, "March 3");
    assert_eq!(rec.title, "The Title");
    assert_eq!(rec.quote, "quote starts and ends");
    assert_eq!(rec.attribution, "\u{2014}Someone");
    assert_eq!(rec.explanation, "first part   second part");
}

#[test]
fn explanation_may_be_empty_when_nothing_follows_the_marker() {
    let lines = block(&["March 3", "Title", "Quote", "\u{2014}Someone"]);
    let rec = segment(&lines).unwrap();
    assert_eq!(rec.explanation, "");
}
