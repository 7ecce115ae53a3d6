use todo_to_issue::cli::handle_plural;
use todo_to_issue::parse::build_candidate;
use todo_to_issue::parse::contains_label;
use todo_to_issue::parse::create_body;
use todo_to_issue::parse::extract_title;

#[test]
fn marker_after_double_slash_matches() {
    assert!(contains_label("let x = 1; // TODO: fix this", &"TODO".to_string()));
}

#[test]
fn marker_after_hash_matches() {
    assert!(contains_label("x = 1  # TODO: fix this", &"TODO".to_string()));
}

#[test]
fn marker_before_opener_is_no_match() {
    assert!(!contains_label("TODO_COUNTER += 1; // increment", &"TODO".to_string()));
}

#[test]
fn no_opener_is_no_match() {
    assert!(!contains_label("let agenda = \"TODO list\";", &"TODO".to_string()));
}

#[test]
fn plain_line_is_no_match() {
    assert!(!contains_label("fn main() {}", &"TODO".to_string()));
}

#[test]
fn comment_without_marker_is_no_match() {
    assert!(!contains_label("// nothing to see here", &"TODO".to_string()));
}

#[test]
fn double_slash_checked_before_hash() {
    // The `//` opener stands after the marker, the `#` before it; the
    // two-character opener governs, so this is no match.
    assert!(!contains_label("x TODO y # z // w", &"TODO".to_string()));
}

#[test]
fn custom_marker_is_honored() {
    assert!(contains_label("// FIXME: broken", &"FIXME".to_string()));
    assert!(!contains_label("// TODO: fine", &"FIXME".to_string()));
}

#[test]
fn title_strips_colon_and_whitespace() {
    let title = extract_title("// TODO: fix bug", &"TODO".to_string());
    assert_eq!(title, "fix bug");
}

#[test]
fn title_without_colon() {
    let title = extract_title("// TODO fix bug", &"TODO".to_string());
    assert_eq!(title, "fix bug");
}

#[test]
fn title_keeps_later_marker_occurrences() {
    let title = extract_title("// TODO: TODO it twice", &"TODO".to_string());
    assert_eq!(title, "TODO it twice");
}

#[test]
fn title_strips_only_one_colon() {
    let title = extract_title("// TODO:: doubled", &"TODO".to_string());
    assert_eq!(title, ": doubled");
}

#[test]
fn body_names_marker_line_and_file() {
    let body = create_body(&42, "src/lib.rs", &"TODO".to_string());
    assert_eq!(body, "Found a TODO comment on line 42 of file src/lib.rs");
}

#[test]
fn body_renders_multi_digit_line_numbers() {
    let body = create_body(&1005, "a.py", &"FIXME".to_string());
    assert_eq!(body, "Found a FIXME comment on line 1005 of file a.py");
}

#[test]
fn candidate_from_plain_marker_line() {
    let issue = build_candidate("// TODO: fix bug", &"TODO".to_string(), 1, "a.rs").unwrap();
    assert_eq!(issue.get_title(), "fix bug");
    assert_eq!(issue.get_body(), "Found a TODO comment on line 1 of file a.rs");
}

#[test]
fn candidate_with_blank_remainder_is_none() {
    let r = build_candidate("// TODO   ", &"TODO".to_string(), 1, "a.rs");
    assert!(r.is_none());
}

#[test]
fn candidate_without_marker_is_none() {
    let r = build_candidate("// nothing", &"TODO".to_string(), 1, "a.rs");
    assert!(r.is_none());
}

#[test]
fn plural_keeps_singular_for_one() {
    assert_eq!(handle_plural(&1, "issue"), "issue");
}

#[test]
fn plural_appends_s_otherwise() {
    assert_eq!(handle_plural(&2, "issue"), "issues");
    assert_eq!(handle_plural(&0, "issue"), "issues");
}
