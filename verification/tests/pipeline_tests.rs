use daily_stoic::dates::DateLabel;
use daily_stoic::errors::PipelineError;
use daily_stoic::pipeline::extract_entry;
use daily_stoic::text::split_lines;

const SAMPLE_DOC: &str = "Some site banner\n\
March 3: ON WISDOM\n\
The Wise Person\n\
It is the power of the mind\n\
to be unconquerable.\n\
\u{2014}Seneca, Moral Letters\n\
This explanation spans\n\
two lines of prose.\n\
March 4: ON COURAGE\n\
Another Title\n";

#[test]
fn extracts_and_segments_one_day() {
    let lines = split_lines(SAMPLE_DOC);
    let rec = extract_entry(&lines, &DateLabel { month: 3, day: 3 }).unwrap();
    assert_eq!(rec.date, "March 3: ON WISDOM");
    assert_eq!(rec.title, "The Wise Person");
    assert_eq!(rec.quote, "It is the power of the mind to be unconquerable.");
    assert_eq!(rec.attribution, "\u{2014}Seneca, Moral Letters");
    assert_eq!(rec.explanation, "This explanation spans two lines of prose.");
}

#[test]
fn missing_day_is_record_not_found() {
    let lines = split_lines(SAMPLE_DOC);
    assert!(matches!(
        extract_entry(&lines, &DateLabel { month: 3, day: 5 }),
        Err(PipelineError::RecordNotFound)
    ));
}

#[test]
fn missing_successor_is_record_not_found() {
    let lines = split_lines(SAMPLE_DOC);
    assert!(matches!(
        extract_entry(&lines, &DateLabel { month: 3, day: 4 }),
        Err(PipelineError::RecordNotFound)
    ));
}

#[test]
fn december_31_reads_to_the_end_of_the_document() {
    let text = "December 31: THE END\n\
A Year Closes\n\
Final quote line\n\
\u{2014}Marcus Aurelius\n\
Closing words.";
    let lines = split_lines(text);
    let rec = extract_entry(&lines, &DateLabel { month: 12, day: 31 }).unwrap();
    assert_eq!(rec.date, "December 31: THE END");
    assert_eq!(rec.quote, "Final quote line");
    assert_eq!(rec.explanation, "Closing words.");
}

#[test]
fn block_without_marker_is_malformed() {
    let text = "March 3\nTitle\nquote only\nMarch 4\nTitle";
    let lines = split_lines(text);
    assert!(matches!(
        extract_entry(&lines, &DateLabel { month: 3, day: 3 }),
        Err(PipelineError::MalformedRecord)
    ));
}
