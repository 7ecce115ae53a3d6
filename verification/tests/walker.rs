use todo_to_issue::pattern::select_files;
use todo_to_issue::pattern::InclusionPattern;
use todo_to_issue::walk::find_all_labels;
use todo_to_issue::walk::find_labels_in_file;
use todo_to_issue::walk::total_count;
use todo_to_issue::walk::FileInput;
use todo_to_issue::walk::FileRead;

fn lines(texts: &[&str]) -> Vec<String> {
    texts.iter().map(|t| t.to_string()).collect()
}

#[test]
fn file_scan_collects_candidates_in_line_order() {
    let content = lines(&["fn f() {}", "// TODO: first", "let x = 1; # TODO second", "done"]);
    let found = find_labels_in_file("a.rs", &content, &Vec::new(), &"TODO".to_string());
    assert_eq!(found.len(), 2);
    assert_eq!(found[0].get_title(), "first");
    assert_eq!(found[0].get_body(), "Found a TODO comment on line 2 of file a.rs");
    assert_eq!(found[1].get_title(), "second");
    assert_eq!(found[1].get_body(), "Found a TODO comment on line 3 of file a.rs");
}

#[test]
fn file_scan_drops_empty_titles() {
    let content = lines(&["// TODO   ", "// TODO: real"]);
    let found = find_labels_in_file("a.rs", &content, &Vec::new(), &"TODO".to_string());
    assert_eq!(found.len(), 1);
    assert_eq!(found[0].get_title(), "real");
}

#[test]
fn seen_title_is_deduplicated() {
    let seen = vec!["fix bug".to_string()];
    let content = lines(&["// TODO: fix bug"]);
    let found = find_labels_in_file("a.rs", &content, &seen, &"TODO".to_string());
    assert_eq!(found.len(), 0);
}

#[test]
fn dedup_tests_the_trimmed_title() {
    // The raw remainder carries a trailing space; trimming happens before
    // the containment check, so this line is deduplicated too.
    let seen = vec!["fix bug".to_string()];
    let content = lines(&["// TODO: fix bug "]);
    let found = find_labels_in_file("a.rs", &content, &seen, &"TODO".to_string());
    assert_eq!(found.len(), 0);
}

#[test]
fn unseen_title_survives_dedup() {
    let seen = vec!["other issue".to_string()];
    let content = lines(&["// TODO: fix bug"]);
    let found = find_labels_in_file("a.rs", &content, &seen, &"TODO".to_string());
    assert_eq!(found.len(), 1);
}

#[test]
fn aggregation_keeps_only_files_with_candidates() {
    let inputs = vec![
        FileInput {
            path: "a.rs".to_string(),
            read: FileRead::Content(lines(&["// TODO: one thing"])),
        },
        FileInput {
            path: "b.py".to_string(),
            read: FileRead::Content(lines(&["print('hello')"])),
        },
    ];
    let map = find_all_labels(&inputs, &Vec::new(), &"TODO".to_string());
    assert_eq!(map.len(), 1);
    assert_eq!(map[0].path, "a.rs");
    assert_eq!(map[0].issues.len(), 1);
    assert_eq!(total_count(&map), Some(1));
}

#[test]
fn unreadable_file_is_skipped_not_fatal() {
    let inputs = vec![
        FileInput { path: "gone.rs".to_string(), read: FileRead::Unreadable },
        FileInput {
            path: "ok.rs".to_string(),
            read: FileRead::Content(lines(&["// TODO: still found"])),
        },
    ];
    let map = find_all_labels(&inputs, &Vec::new(), &"TODO".to_string());
    assert_eq!(map.len(), 1);
    assert_eq!(map[0].path, "ok.rs");
    assert_eq!(map[0].issues[0].get_title(), "still found");
}

#[test]
fn empty_mapping_counts_zero() {
    assert_eq!(total_count(&Vec::new()), Some(0));
}

#[test]
fn pattern_filters_before_any_file_is_read() {
    let pattern = InclusionPattern::new("*.rs").unwrap();
    let files = vec!["a.rs".to_string(), "b.py".to_string()];
    let selected = select_files(&files, &pattern);
    // b.py is filtered out up front, so it is never opened and can never
    // contribute to the mapping, whatever it contains.
    assert_eq!(selected, vec!["a.rs".to_string()]);
    let inputs: Vec<FileInput> = selected
        .into_iter()
        .map(|path| FileInput {
            path,
            read: FileRead::Content(lines(&["// TODO: in rust file"])),
        })
        .collect();
    let map = find_all_labels(&inputs, &Vec::new(), &"TODO".to_string());
    assert_eq!(map.len(), 1);
    assert_eq!(map[0].path, "a.rs");
}

#[test]
fn match_all_pattern_selects_everything() {
    let pattern = InclusionPattern::new("*").unwrap();
    assert_eq!(pattern.text(), "*");
    let files = vec!["a.rs".to_string(), "deep/dir/b.py".to_string()];
    let selected = select_files(&files, &pattern);
    assert_eq!(selected.len(), 2);
}

#[test]
fn invalid_glob_is_rejected() {
    assert!(InclusionPattern::new("a[").is_none());
}
