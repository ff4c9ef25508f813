use daily_stoic::errors::PipelineError;
use daily_stoic::locate::locate;

fn doc(lines: &[&str]) -> Vec<String> {
    lines.iter().map(|l| l.to_string()).collect()
}

#[test]
fn locate_returns_the_lines_between_two_headers() {
    let lines = doc(&[
        "preamble",
        "March 3: WISDOM",
        "Title",
        "Quote line",
        "March 4: COURAGE",
        "Other title",
    ]);
    let block = locate(&lines, "March 3", Some("March 4")).unwrap();
    assert_eq!(block, vec!["March 3: WISDOM", "Title", "Quote line"]);
}

#[test]
fn locate_matches_headers_by_prefix() {
    let lines = doc(&["March 30, ornate header", "body", "March 31!", "tail"]);
    let block = locate(&lines, "March 30", Some("March 31")).unwrap();
    assert_eq!(block, vec!["March 30, ornate header", "body"]);
}

#[test]
fn locate_fails_when_the_target_is_missing() {
    let lines = doc(&["March 4", "body"]);
    assert!(matches!(
        locate(&lines, "March 3", Some("March 4")),
        Err(PipelineError::RecordNotFound)
    ));
}

#[test]
fn locate_fails_when_the_successor_never_appears() {
    let lines = doc(&["March 3", "Title", "Quote line", "tail line"]);
    assert!(matches!(
        locate(&lines, "March 3", Some("March 4")),
        Err(PipelineError::RecordNotFound)
    ));
}

#[test]
fn locate_without_successor_reads_to_the_end() {
    let lines = doc(&["preamble", "March 3", "Title", "Quote line", "tail line"]);
    let block = locate(&lines, "March 3", None).unwrap();
    assert_eq!(block, vec!["March 3", "Title", "Quote line", "tail line"]);
}

#[test]
fn locate_stops_at_the_first_matching_start() {
    let lines = doc(&["March 3 first", "middle", "March 3 again", "March 4 end"]);
    let block = locate(&lines, "March 3", Some("March 4")).unwrap();
    assert_eq!(block, vec!["March 3 first", "middle", "March 3 again"]);
}

#[test]
fn locate_excludes_a_successor_on_the_last_line() {
    let lines = doc(&["March 3", "only line", "March 4"]);
    let block = locate(&lines, "March 3", Some("March 4")).unwrap();
    assert_eq!(block, vec!["March 3", "only line"]);
}
