//! The file walker and aggregator: scanning the lines of one file into
//! candidates with remote-title deduplication, and folding per-file scans
//! over a whole file list into a sparse path-to-candidates mapping.

use vstd::prelude::*;

use crate::issue::Issue;
use crate::issue::IssueView;
use crate::parse::build_candidate;
use crate::parse::build_candidate_spec;
use crate::parse::contains_label;
use crate::parse::contains_label_spec;
use crate::parse::extract_title_spec;

verus! {

/// What reading one file produced: its lines, or nothing when the file
/// could not be opened or decoded as text.
pub enum FileRead {
    Content(Vec<String>),
    Unreadable,
}

/// One file handed to the aggregator: its path and what reading it produced.
pub struct FileInput {
    pub path: String,
    pub read: FileRead,
}

/// The mathematical content of a [`FileInput`]: the path, and the lines when
/// the file was readable.
pub struct FileInputView {
    pub path: Seq<char>,
    pub read: Option<Seq<Seq<char>>>,
}

impl View for FileInput {
    type V = FileInputView;

    open spec fn view(&self) -> FileInputView {
        FileInputView {
            path: self.path@,
            read: match self.read {
                FileRead::Content(lines) => Some(lines.deep_view()),
                FileRead::Unreadable => None,
            },
        }
    }
}

impl DeepView for FileInput {
    type V = FileInputView;

    open spec fn deep_view(&self) -> FileInputView {
        self@
    }
}

/// One entry of the result mapping: a path and the candidates its file
/// yielded, in line order.
pub struct FileIssues {
    pub path: String,
    pub issues: Vec<Issue>,
}

/// The mathematical content of a [`FileIssues`].
pub struct FileIssuesView {
    pub path: Seq<char>,
    pub issues: Seq<IssueView>,
}

impl View for FileIssues {
    type V = FileIssuesView;

    open spec fn view(&self) -> FileIssuesView {
        FileIssuesView { path: self.path@, issues: self.issues.deep_view() }
    }
}

impl DeepView for FileIssues {
    type V = FileIssuesView;

    open spec fn deep_view(&self) -> FileIssuesView {
        self@
    }
}

/// The candidate one line contributes, if any: the line must hold the marker
/// inside a comment, the derived title must be nonempty, and the title must
/// not be among the remote titles already seen.
pub open spec fn accepted_candidate(
    line: Seq<char>,
    label: Seq<char>,
    line_number: int,
    path: Seq<char>,
    seen: Seq<Seq<char>>,
) -> Option<IssueView> {
    if contains_label_spec(line, label) {
        match build_candidate_spec(line, label, line_number, path) {
            Some(c) => if seen.contains(c.title) {
                None
            } else {
                Some(c)
            },
            None => None,
        }
    } else {
        None
    }
}

/// The candidates that lines `i` and later contribute, in line order, with
/// 1-indexed line numbering.
pub open spec fn scan_lines_from(
    lines: Seq<Seq<char>>,
    i: int,
    label: Seq<char>,
    path: Seq<char>,
    seen: Seq<Seq<char>>,
) -> Seq<IssueView>
    decreases lines.len() - i,
{
    if i < 0 || i >= lines.len() {
        Seq::empty()
    } else {
        let rest = scan_lines_from(lines, i + 1, label, path, seen);
        match accepted_candidate(lines[i], label, i + 1, path, seen) {
            Some(c) => seq![c] + rest,
            None => rest,
        }
    }
}

/// The candidates a whole file's lines contribute.
pub open spec fn scan_lines_spec(
    lines: Seq<Seq<char>>,
    label: Seq<char>,
    path: Seq<char>,
    seen: Seq<Seq<char>>,
) -> Seq<IssueView> {
    scan_lines_from(lines, 0, label, path, seen)
}

/// Whether `v` holds a string whose characters are `s`.
fn contains_string(v: &Vec<String>, s: &String) -> (r: bool)
    ensures
        r == v.deep_view().contains(s@),
{
    let mut i: usize = 0;
    while i < v.len()
        invariant
            0 <= i <= v.len(),
            forall|j: int| 0 <= j < i ==> v.deep_view()[j] != s@,
        decreases v.len() - i,
    {
        if v[i].eq(s) {
            assert(v.deep_view()[i as int] == s@);
            return true;
        }
        i += 1;
    }
    assert(!v.deep_view().contains(s@));
    false
}

/// Scans the lines of one file for marker comments, building a candidate
/// for each line that holds the marker with a nonempty derived title not
/// already present remotely, in line order.
pub fn find_labels_in_file(
    path: &str,
    lines: &Vec<String>,
    prev_issues: &Vec<String>,
    label: &String,
) -> (r: Vec<Issue>)
    requires
        lines@.len() <= u32::MAX,
    ensures
        r.deep_view() == scan_lines_spec(lines.deep_view(), label@, path@, prev_issues.deep_view()),
{
    let ghost linesv = lines.deep_view();
    let ghost seen = prev_issues.deep_view();
    let mut issues_in_file: Vec<Issue> = Vec::new();
    let mut i: usize = 0;
    proof {
        assert(issues_in_file.deep_view() + scan_lines_from(linesv, 0, label@, path@, seen)
            =~= scan_lines_spec(linesv, label@, path@, seen));
    }
    while i < lines.len()
        invariant
            0 <= i <= lines.len(),
            lines.len() <= u32::MAX,
            linesv == lines.deep_view(),
            seen == prev_issues.deep_view(),
            issues_in_file.deep_view() + scan_lines_from(linesv, i as int, label@, path@, seen)
                == scan_lines_spec(linesv, label@, path@, seen),
        decreases lines.len() - i,
    {
        let line = lines[i].as_str();
        let line_number = (i + 1) as u32;
        if contains_label(line, label) {
            match build_candidate(line, label, line_number, path) {
                Some(issue) => {
                    let title = issue.get_title();
                    if !contains_string(prev_issues, &title) {
                        let ghost before = issues_in_file.deep_view();
                        issues_in_file.push(issue);
                        proof {
                            assert(issues_in_file.deep_view() =~= before + seq![issue@]);
                        }
                    }
                },
                None => {},
            }
        }
        proof {
            assert(issues_in_file.deep_view() + scan_lines_from(
                linesv,
                i + 1,
                label@,
                path@,
                seen,
            ) =~= scan_lines_spec(linesv, label@, path@, seen));
        }
        i += 1;
    }
    proof {
        assert(issues_in_file.deep_view() =~= scan_lines_spec(linesv, label@, path@, seen));
    }
    issues_in_file
}

/// The mapping entries that files `i` and later contribute: one entry per
/// readable file whose scan yielded at least one candidate; unreadable
/// files are skipped.
pub open spec fn aggregate_from(
    inputs: Seq<FileInputView>,
    i: int,
    label: Seq<char>,
    seen: Seq<Seq<char>>,
) -> Seq<FileIssuesView>
    decreases inputs.len() - i,
{
    if i < 0 || i >= inputs.len() {
        Seq::empty()
    } else {
        let rest = aggregate_from(inputs, i + 1, label, seen);
        match inputs[i].read {
            None => rest,
            Some(lines) => {
                let found = scan_lines_spec(lines, label, inputs[i].path, seen);
                if found.len() == 0 {
                    rest
                } else {
                    seq![FileIssuesView { path: inputs[i].path, issues: found }] + rest
                }
            },
        }
    }
}

/// The whole path-to-candidates mapping a file list produces.
pub open spec fn aggregate_spec(
    inputs: Seq<FileInputView>,
    label: Seq<char>,
    seen: Seq<Seq<char>>,
) -> Seq<FileIssuesView> {
    aggregate_from(inputs, 0, label, seen)
}

/// Walks the file list in order and merges the per-file scans into the
/// sparse mapping: files that could not be read are skipped, and a file
/// appears exactly when its scan yielded at least one candidate.
pub fn find_all_labels(inputs: &Vec<FileInput>, prev_issues: &Vec<String>, label: &String) -> (r:
    Vec<FileIssues>)
    requires
        forall|k: int|
            0 <= k < inputs.deep_view().len() ==> (#[trigger] inputs.deep_view()[k].read matches
            Some(lines) ==> lines.len() <= u32::MAX),
    ensures
        r.deep_view() == aggregate_spec(inputs.deep_view(), label@, prev_issues.deep_view()),
{
    let ghost inputsv = inputs.deep_view();
    let ghost seen = prev_issues.deep_view();
    let mut file_to_issues: Vec<FileIssues> = Vec::new();
    let mut k: usize = 0;
    proof {
        assert(file_to_issues.deep_view() + aggregate_from(inputsv, 0, label@, seen)
            =~= aggregate_spec(inputsv, label@, seen));
    }
    while k < inputs.len()
        invariant
            0 <= k <= inputs.len(),
            inputsv == inputs.deep_view(),
            seen == prev_issues.deep_view(),
            forall|j: int|
                0 <= j < inputsv.len() ==> (#[trigger] inputsv[j].read matches Some(lines)
                    ==> lines.len() <= u32::MAX),
            file_to_issues.deep_view() + aggregate_from(inputsv, k as int, label@, seen)
                == aggregate_spec(inputsv, label@, seen),
        decreases inputs.len() - k,
    {
        let input = &inputs[k];
        match &input.read {
            FileRead::Content(lines) => {
                assert(inputsv[k as int].read matches Some(l) && l == lines.deep_view());
                let found = find_labels_in_file(input.path.as_str(), lines, prev_issues, label);
                if found.len() > 0 {
                    let ghost before = file_to_issues.deep_view();
                    let entry = FileIssues { path: input.path.clone(), issues: found };
                    file_to_issues.push(entry);
                    proof {
                        assert(file_to_issues.deep_view() =~= before + seq![entry@]);
                    }
                }
            },
            FileRead::Unreadable => {},
        }
        proof {
            assert(file_to_issues.deep_view() + aggregate_from(inputsv, k + 1, label@, seen)
                =~= aggregate_spec(inputsv, label@, seen));
        }
        k += 1;
    }
    proof {
        assert(file_to_issues.deep_view() =~= aggregate_spec(inputsv, label@, seen));
    }
    file_to_issues
}

/// The total number of candidates across all entries of the mapping.
pub open spec fn total_count_from(results: Seq<FileIssuesView>, i: int) -> int
    decreases results.len() - i,
{
    if i < 0 || i >= results.len() {
        0
    } else {
        results[i].issues.len() + total_count_from(results, i + 1)
    }
}

/// The total number of candidates in the mapping.
pub open spec fn total_count_spec(results: Seq<FileIssuesView>) -> int {
    total_count_from(results, 0)
}

/// The tail sums of the count are never negative.
proof fn lemma_total_count_nonneg(results: Seq<FileIssuesView>, i: int)
    ensures
        total_count_from(results, i) >= 0,
    decreases results.len() - i,
{
    if 0 <= i < results.len() {
        lemma_total_count_nonneg(results, i + 1);
    }
}

/// Sums the candidate counts across the mapping; the total is derived from
/// the entries rather than stored, and is reported only when it fits.
pub fn total_count(results: &Vec<FileIssues>) -> (r: Option<usize>)
    ensures
        match r {
            Some(t) => t == total_count_spec(results.deep_view()),
            None => total_count_spec(results.deep_view()) > usize::MAX,
        },
{
    let ghost resultsv = results.deep_view();
    let mut total: usize = 0;
    let mut i: usize = 0;
    while i < results.len()
        invariant
            0 <= i <= results.len(),
            resultsv == results.deep_view(),
            total + total_count_from(resultsv, i as int) == total_count_spec(resultsv),
        decreases results.len() - i,
    {
        let n = results[i].issues.len();
        assert(n == resultsv[i as int].issues.len());
        if total > usize::MAX - n {
            proof {
                lemma_total_count_nonneg(resultsv, i + 1);
            }
            return None;
        }
        total = total + n;
        i += 1;
    }
    Some(total)
}

/// A line whose derived (trimmed) title is already among the remote titles
/// contributes no candidate: deduplication tests the trimmed title, never
/// the raw remainder.
pub proof fn lemma_seen_title_dropped(
    line: Seq<char>,
    label: Seq<char>,
    line_number: int,
    path: Seq<char>,
    seen: Seq<Seq<char>>,
)
    requires
        seen.contains(extract_title_spec(line, label)),
    ensures
        accepted_candidate(line, label, line_number, path, seen) is None,
{
}

/// An unreadable file changes nothing: the mapping over a file list with an
/// unreadable entry equals the mapping over the list with that entry removed,
/// so one failed read never disturbs the files after it.
pub proof fn lemma_unreadable_file_skipped(
    inputs: Seq<FileInputView>,
    i: int,
    label: Seq<char>,
    seen: Seq<Seq<char>>,
)
    requires
        0 <= i < inputs.len(),
        inputs[i].read is None,
    ensures
        aggregate_spec(inputs, label, seen) == aggregate_spec(inputs.remove(i), label, seen),
{
    lemma_aggregate_remove_prefix(inputs, i, 0, label, seen);
}

/// Past the removed position, aggregating the shortened list from `k` agrees
/// with aggregating the full list from `k + 1`.
proof fn lemma_aggregate_remove_shift(
    inputs: Seq<FileInputView>,
    i: int,
    k: int,
    label: Seq<char>,
    seen: Seq<Seq<char>>,
)
    requires
        0 <= i < inputs.len(),
        i <= k,
    ensures
        aggregate_from(inputs.remove(i), k, label, seen) == aggregate_from(
            inputs,
            k + 1,
            label,
            seen,
        ),
    decreases inputs.len() - k,
{
    let removed = inputs.remove(i);
    if k >= removed.len() {
    } else {
        assert(removed[k] == inputs[k + 1]);
        lemma_aggregate_remove_shift(inputs, i, k + 1, label, seen);
    }
}

/// Before the removed position, aggregating the shortened list agrees with
/// aggregating the full list, because the removed entry was unreadable.
proof fn lemma_aggregate_remove_prefix(
    inputs: Seq<FileInputView>,
    i: int,
    j: int,
    label: Seq<char>,
    seen: Seq<Seq<char>>,
)
    requires
        0 <= j <= i < inputs.len(),
        inputs[i].read is None,
    ensures
        aggregate_from(inputs, j, label, seen) == aggregate_from(inputs.remove(i), j, label, seen),
    decreases i - j,
{
    let removed = inputs.remove(i);
    if j == i {
        lemma_aggregate_remove_shift(inputs, i, i, label, seen);
    } else {
        assert(removed[j] == inputs[j]);
        lemma_aggregate_remove_prefix(inputs, i, j + 1, label, seen);
    }
}

} // verus!
