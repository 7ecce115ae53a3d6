use todo_to_issue::cli::disposition_from_selection;
use todo_to_issue::cli::Disposition;
use todo_to_issue::command::parse_remote_name;
use todo_to_issue::command::parse_tracked_files;
use todo_to_issue::issue::Response;
use todo_to_issue::request::auth_header;
use todo_to_issue::request::collect_titles;
use todo_to_issue::request::format_query_label;
use todo_to_issue::request::is_successful_status;
use todo_to_issue::request::issues_url;
use todo_to_issue::request::remote_url;
use todo_to_issue::request::status_error_message;

#[test]
fn remote_name_from_https_url() {
    let name = parse_remote_name("https://github.com/user/repo.git\n");
    assert_eq!(name, Some("user/repo".to_string()));
}

#[test]
fn remote_name_without_git_suffix() {
    let name = parse_remote_name("https://github.com/user/repo");
    assert_eq!(name, Some("user/repo".to_string()));
}

#[test]
fn remote_name_absent_without_host() {
    assert_eq!(parse_remote_name("https://example.org/user/repo.git"), None);
}

#[test]
fn tracked_files_drop_empty_lines() {
    let files = parse_tracked_files("src/lib.rs\nREADME.md\n\n");
    assert_eq!(files, vec!["src/lib.rs".to_string(), "README.md".to_string()]);
}

#[test]
fn tracked_files_of_empty_output() {
    assert_eq!(parse_tracked_files(""), Vec::<String>::new());
}

#[test]
fn issues_url_names_the_repo() {
    assert_eq!(issues_url("user/repo"), "https://api.github.com/repos/user/repo/issues");
}

#[test]
fn remote_url_names_the_repo() {
    assert_eq!(remote_url("user/repo"), "https://github.com/user/repo");
}

#[test]
fn auth_header_carries_the_token() {
    assert_eq!(auth_header("abc123"), "token abc123");
}

#[test]
fn query_label_names_the_marker() {
    assert_eq!(format_query_label("TODO"), "issue::TODO");
}

#[test]
fn only_ok_and_created_succeed() {
    assert!(is_successful_status(200));
    assert!(is_successful_status(201));
    assert!(!is_successful_status(204));
    assert!(!is_successful_status(404));
}

#[test]
fn known_status_codes_have_descriptions() {
    assert_eq!(status_error_message(410), "Issues are disabled in this repository.");
    assert_eq!(status_error_message(422), "Unable to process request.");
    assert_eq!(
        status_error_message(403),
        "You have reached the GitHub API rate limit. Please try again later."
    );
}

#[test]
fn unknown_status_code_is_reported_numerically() {
    assert_eq!(status_error_message(500), "Received unexpected status code 500");
}

#[test]
fn titles_are_collected_in_order() {
    let responses = vec![
        Response::new("first".to_string(), 1),
        Response::new("second".to_string(), 2),
    ];
    let titles = collect_titles(&responses);
    assert_eq!(titles, vec!["first".to_string(), "second".to_string()]);
}

#[test]
fn selection_indices_map_to_dispositions() {
    assert_eq!(disposition_from_selection(0), Disposition::Open);
    assert_eq!(disposition_from_selection(1), Disposition::Edit);
    assert_eq!(disposition_from_selection(2), Disposition::Skip);
    assert_eq!(disposition_from_selection(3), Disposition::Exit);
    assert_eq!(disposition_from_selection(9), Disposition::Exit);
}
