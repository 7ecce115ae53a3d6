//! The marker scanner and candidate builder: deciding whether a line holds a
//! comment-embedded marker, deriving the issue title from the text after the
//! marker, and synthesizing the generated body.

use vstd::prelude::*;
use vstd::string::StrSliceExecFns;
use vstd::string::StringExecFns;

use crate::issue::Issue;
use crate::issue::IssueView;
use crate::strutil::dec_spec;
use crate::strutil::find_spec;
use crate::strutil::find_sub;
use crate::strutil::trim;
use crate::strutil::trim_spec;
use crate::strutil::u32_to_string;

verus! {

/// The position of the first comment opener on the line: the first `//` when
/// one occurs, otherwise the first `#`.
pub open spec fn comment_pos_spec(line: Seq<char>) -> Option<int> {
    if find_spec(line, "//"@) is Some {
        find_spec(line, "//"@)
    } else {
        find_spec(line, "#"@)
    }
}

/// Whether the line holds the marker inside a comment: both a comment opener
/// and the marker occur, and the marker's first occurrence comes strictly
/// after the opener's.
pub open spec fn contains_label_spec(line: Seq<char>, label: Seq<char>) -> bool {
    match comment_pos_spec(line) {
        Some(c) => match find_spec(line, label) {
            Some(l) => l > c,
            None => false,
        },
        None => false,
    }
}

/// Whether `line` holds the marker `label` inside a line comment. Both the
/// `//` and the `#` opener styles are recognized, the two-character style
/// first.
pub fn contains_label(line: &str, label: &String) -> (r: bool)
    ensures
        r == contains_label_spec(line@, label@),
{
    let comment = match find_sub(line, "//") {
        Some(value) => Some(value),
        None => find_sub(line, "#"),
    };
    let a_label = find_sub(line, label.as_str());
    if comment.is_some() && a_label.is_some() {
        let comment_index = comment.unwrap();
        let label_index = a_label.unwrap();
        return label_index > comment_index;
    }
    false
}

/// Everything on the line after the first occurrence of the marker.
pub open spec fn after_label_spec(line: Seq<char>, label: Seq<char>) -> Seq<char> {
    line.subrange(find_spec(line, label)->Some_0 + label.len(), line.len() as int)
}

/// `s` with one leading colon removed, when it has one.
pub open spec fn strip_colon_spec(s: Seq<char>) -> Seq<char> {
    if s.len() > 0 && s[0] == ':' {
        s.drop_first()
    } else {
        s
    }
}

/// The issue title derived from a line: the text after the first occurrence
/// of the marker, less one leading colon, trimmed of whitespace.
pub open spec fn extract_title_spec(line: Seq<char>, label: Seq<char>) -> Seq<char> {
    trim_spec(strip_colon_spec(after_label_spec(line, label)))
}

/// Derives the issue title from a line that holds the marker.
pub fn extract_title(line: &str, label: &String) -> (r: String)
    requires
        find_spec(line@, label@) is Some,
    ensures
        r@ == extract_title_spec(line@, label@),
{
    proof {
        crate::strutil::lemma_find_spec_characterization(line@, label@);
    }
    let pos = match find_sub(line, label.as_str()) {
        Some(p) => p,
        None => {
            proof {
                assert(false);
            }
            0
        },
    };
    assert(pos as int + label@.len() <= line@.len());
    let line_len = line.unicode_len();
    let after = line.substring_char(pos + label.unicode_len(), line_len);
    assert(after@ == after_label_spec(line@, label@));
    let after_len = after.unicode_len();
    let stripped = if after_len > 0 && after.get_char(0) == ':' {
        let r = after.substring_char(1, after_len);
        assert(r@ =~= strip_colon_spec(after@));
        r
    } else {
        assert(after@ == strip_colon_spec(after@));
        after
    };
    String::from_str(trim(stripped))
}

/// The generated body for a candidate found at a source location.
pub open spec fn body_spec(label: Seq<char>, line_number: int, file_path: Seq<char>) -> Seq<char> {
    "Found a "@ + label + " comment on line "@ + dec_spec(line_number) + " of file "@ + file_path
}

/// Synthesizes the generic issue body naming the marker, the line number and
/// the file the comment was found in.
pub fn create_body(line_number: &u32, file_path: &str, label: &String) -> (r: String)
    ensures
        r@ == body_spec(label@, *line_number as int, file_path@),
{
    let mut s = String::new();
    s.append("Found a ");
    s.append(label.as_str());
    s.append(" comment on line ");
    let num = u32_to_string(*line_number);
    s.append(num.as_str());
    s.append(" of file ");
    s.append(file_path);
    proof {
        assert(s@ =~= body_spec(label@, *line_number as int, file_path@));
    }
    s
}

/// The candidate a line yields, if any: none when the marker is absent or
/// the derived title is empty, otherwise the title together with the
/// generated body.
pub open spec fn build_candidate_spec(
    line: Seq<char>,
    label: Seq<char>,
    line_number: int,
    file_path: Seq<char>,
) -> Option<IssueView> {
    if find_spec(line, label) is None {
        None
    } else if extract_title_spec(line, label).len() == 0 {
        None
    } else {
        Some(
            IssueView {
                title: extract_title_spec(line, label),
                body: body_spec(label, line_number, file_path),
            },
        )
    }
}

/// Builds the candidate a line yields: the derived title with the generated
/// body, or none when the marker is absent or the title comes out empty.
pub fn build_candidate(line: &str, label: &String, line_number: u32, file_path: &str) -> (r:
    Option<Issue>)
    ensures
        match r {
            Some(issue) => build_candidate_spec(line@, label@, line_number as int, file_path@)
                == Some(issue@),
            None => build_candidate_spec(line@, label@, line_number as int, file_path@) is None,
        },
{
    if find_sub(line, label.as_str()).is_none() {
        return None;
    }
    let title = extract_title(line, label);
    if title.as_str().unicode_len() == 0 {
        return None;
    }
    let body = create_body(&line_number, file_path, label);
    Some(Issue::new(title, body))
}

/// Where a two-character comment opener and the marker both occur on a line,
/// the scanner reports a match exactly by position: a marker strictly after
/// the opener matches, a marker strictly before it does not.
pub proof fn lemma_scan_by_position(line: Seq<char>, label: Seq<char>)
    requires
        find_spec(line, "//"@) is Some,
        find_spec(line, label) is Some,
    ensures
        find_spec(line, label)->Some_0 > find_spec(line, "//"@)->Some_0 ==> contains_label_spec(
            line,
            label,
        ),
        find_spec(line, label)->Some_0 < find_spec(line, "//"@)->Some_0 ==> !contains_label_spec(
            line,
            label,
        ),
{
}

/// A line with no comment opener at all never yields a match, whether or not
/// the marker occurs on it.
pub proof fn lemma_no_opener_no_match(line: Seq<char>, label: Seq<char>)
    requires
        find_spec(line, "//"@) is None,
        find_spec(line, "#"@) is None,
    ensures
        !contains_label_spec(line, label),
{
}

} // verus!
