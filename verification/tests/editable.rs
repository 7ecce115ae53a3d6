use todo_to_issue::issue::Issue;
use todo_to_issue::issue::Response;

#[test]
fn editable_form_has_title_and_body_lines() {
    let issue = Issue::new("t".to_string(), "b".to_string());
    assert_eq!(issue.to_string(), "Title: t\nBody: b");
}

#[test]
fn parse_well_formed_text() {
    let issue = Issue::from_string("Title: fix bug\nBody: see line 3".to_string()).unwrap();
    assert_eq!(issue.get_title(), "fix bug");
    assert_eq!(issue.get_body(), "see line 3");
}

#[test]
fn parse_multi_line_body() {
    let issue = Issue::from_string("Title: t\nBody: first\nsecond\nthird".to_string()).unwrap();
    assert_eq!(issue.get_title(), "t");
    assert_eq!(issue.get_body(), "first\nsecond\nthird");
}

#[test]
fn parse_rejects_single_line() {
    assert!(Issue::from_string("Title: only".to_string()).is_none());
}

#[test]
fn parse_rejects_missing_title_prefix() {
    assert!(Issue::from_string("Headline: t\nBody: b".to_string()).is_none());
}

#[test]
fn parse_rejects_missing_body_prefix() {
    assert!(Issue::from_string("Title: t\nDescription: b".to_string()).is_none());
}

#[test]
fn parse_rejects_lowercase_prefix() {
    assert!(Issue::from_string("title: t\nBody: b".to_string()).is_none());
}

#[test]
fn parse_rejects_empty_title() {
    assert!(Issue::from_string("Title:   \nBody: b".to_string()).is_none());
}

#[test]
fn round_trip_single_line_candidate() {
    let issue = Issue::new("t".to_string(), "b".to_string());
    let back = Issue::from_string(issue.to_string()).unwrap();
    assert_eq!(back.get_title(), "t");
    assert_eq!(back.get_body(), "b");
}

#[test]
fn round_trip_longer_candidate() {
    let issue = Issue::new(
        "fix the parser".to_string(),
        "Found a TODO comment on line 7 of file src/parse.rs".to_string(),
    );
    let back = Issue::from_string(issue.to_string()).unwrap();
    assert_eq!(back.get_title(), issue.get_title());
    assert_eq!(back.get_body(), issue.get_body());
}

#[test]
fn round_trip_multi_line_body() {
    let issue = Issue::new("t".to_string(), "first\nsecond line\n  indented".to_string());
    let back = Issue::from_string(issue.to_string()).unwrap();
    assert_eq!(back.get_title(), "t");
    assert_eq!(back.get_body(), "first\nsecond line\n  indented");
}

#[test]
fn wire_form_carries_title_body_and_label() {
    let issue = Issue::new("t".to_string(), "b".to_string());
    let wire = issue.to_wire(&"TODO".to_string());
    assert_eq!(wire.title, "t");
    assert_eq!(wire.body, "b");
    assert_eq!(wire.labels, vec!["TODO".to_string()]);
}

#[test]
fn response_reports_title_and_number() {
    let r = Response::new("fix bug".to_string(), 17);
    assert_eq!(r.get_title(), "fix bug");
    assert_eq!(r.get_number(), 17);
}
