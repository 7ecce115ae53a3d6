//! The issue candidate type, its reversible editable-text representation,
//! and the wire-ready record handed to a tracker client.

use vstd::prelude::*;
use vstd::string::StrSliceExecFns;
use vstd::string::StringExecFns;

use crate::strutil::is_whitespace;
use crate::strutil::lemma_split_lines_concat;
use crate::strutil::lemma_split_lines_no_newline;
use crate::strutil::lemma_split_lines_nonempty;
use crate::strutil::lemma_split_lines_prepend;
use crate::strutil::split_lines;
use crate::strutil::split_newlines;
use crate::strutil::starts_with_prefix;
use crate::strutil::starts_with_spec;
use crate::strutil::trim;
use crate::strutil::trim_spec;

verus! {

/// A candidate issue: a nonempty derived title and a human-readable body.
pub struct Issue {
    title: String,
    body: String,
}

/// The mathematical content of an [`Issue`].
pub struct IssueView {
    pub title: Seq<char>,
    pub body: Seq<char>,
}

impl View for Issue {
    type V = IssueView;

    closed spec fn view(&self) -> IssueView {
        IssueView { title: self.title@, body: self.body@ }
    }
}

impl DeepView for Issue {
    type V = IssueView;

    open spec fn deep_view(&self) -> IssueView {
        self@
    }
}

/// An issue as the remote tracker reports it: its title and its number.
pub struct Response {
    title: String,
    number: usize,
}

/// The mathematical content of a [`Response`].
pub struct ResponseView {
    pub title: Seq<char>,
    pub number: usize,
}

impl View for Response {
    type V = ResponseView;

    closed spec fn view(&self) -> ResponseView {
        ResponseView { title: self.title@, number: self.number }
    }
}

impl DeepView for Response {
    type V = ResponseView;

    open spec fn deep_view(&self) -> ResponseView {
        self@
    }
}

/// The wire-ready record for creating an issue remotely: title, body, and
/// the labels to attach.
pub struct WireIssue {
    pub title: String,
    pub body: String,
    pub labels: Vec<String>,
}

/// The editable text form of a candidate: a `Title:` line, a `Body:` line,
/// and any further body lines verbatim.
pub open spec fn editable_spec(title: Seq<char>, body: Seq<char>) -> Seq<char> {
    "Title: "@ + title + "\nBody: "@ + body
}

/// The lines of a multi-line body past the first, each reattached behind a
/// newline.
pub open spec fn glue_lines(parts: Seq<Seq<char>>, i: int) -> Seq<char>
    decreases parts.len() - i,
{
    if i < 0 || i >= parts.len() {
        Seq::empty()
    } else {
        seq!['\n'] + parts[i] + glue_lines(parts, i + 1)
    }
}

/// The result of parsing editable text back into a candidate: the derived
/// title and body if the text is well formed, nothing otherwise.
pub open spec fn parse_editable_spec(s: Seq<char>) -> Option<IssueView> {
    let parts = split_lines(s);
    if parts.len() < 2 {
        None
    } else if !starts_with_spec(parts[0], "Title:"@) || !starts_with_spec(parts[1], "Body:"@) {
        None
    } else {
        let title = trim_spec(parts[0].subrange("Title:"@.len() as int, parts[0].len() as int));
        let body0 = trim_spec(parts[1].subrange("Body:"@.len() as int, parts[1].len() as int));
        if title.len() == 0 {
            None
        } else {
            Some(IssueView { title, body: body0 + glue_lines(parts, 2) })
        }
    }
}

impl Issue {
    /// Wraps a derived title and body as a candidate.
    pub fn new(title: String, body: String) -> (r: Issue)
        ensures
            r@.title == title@,
            r@.body == body@,
    {
        Issue { title, body }
    }

    /// Parses the editable text form back into a candidate: the first line
    /// must carry the `Title:` prefix, the second the `Body:` prefix, the
    /// derived title must be nonempty, and any further lines extend the body.
    pub fn from_string(string: String) -> (r: Option<Issue>)
        ensures
            match r {
                Some(issue) => parse_editable_spec(string@) == Some(issue@),
                None => parse_editable_spec(string@) is None,
            },
    {
        let parts = split_newlines(string.as_str());
        let ghost partsv = parts.deep_view();
        if parts.len() < 2 {
            return None;
        }
        let title_line = parts[0].as_str();
        let body_line = parts[1].as_str();
        assert(title_line@ == partsv[0] && body_line@ == partsv[1]);
        if !starts_with_prefix(title_line, "Title:") || !starts_with_prefix(body_line, "Body:") {
            return None;
        }
        let title_prefix_len = "Title:".unicode_len();
        let body_prefix_len = "Body:".unicode_len();
        let title_rest = title_line.substring_char(title_prefix_len, title_line.unicode_len());
        let body_rest = body_line.substring_char(body_prefix_len, body_line.unicode_len());
        let title = String::from_str(trim(title_rest));
        let mut body = String::from_str(trim(body_rest));
        if title.as_str().unicode_len() == 0 {
            return None;
        }
        let ghost body0 = body@;
        let mut index: usize = 2;
        while index < parts.len()
            invariant
                2 <= index <= parts.len(),
                partsv == parts.deep_view(),
                partsv.len() == parts.len(),
                body@ + glue_lines(partsv, index as int) == body0 + glue_lines(partsv, 2),
            decreases parts.len() - index,
        {
            let ghost before = body@;
            body.append("\n");
            body.append(parts[index].as_str());
            proof {
                reveal_strlit("\n");
                assert(body@ =~= before + seq!['\n'] + partsv[index as int]);
                assert(body@ + glue_lines(partsv, index + 1) =~= before + glue_lines(
                    partsv,
                    index as int,
                ));
            }
            index += 1;
        }
        proof {
            assert(body@ + glue_lines(partsv, index as int) =~= body@);
            assert(body@ == body0 + glue_lines(partsv, 2));
        }
        Some(Issue { title, body })
    }

    /// The derived title.
    pub fn get_title(&self) -> (r: String)
        ensures
            r@ == self@.title,
    {
        self.title.clone()
    }

    /// The body text.
    pub fn get_body(&self) -> (r: String)
        ensures
            r@ == self@.body,
    {
        self.body.clone()
    }

    /// Renders the candidate in its editable text form.
    pub fn to_string(&self) -> (r: String)
        ensures
            r@ == editable_spec(self@.title, self@.body),
    {
        let mut s = String::new();
        s.append("Title: ");
        s.append(self.title.as_str());
        s.append("\nBody: ");
        s.append(self.body.as_str());
        proof {
            assert(s@ =~= editable_spec(self@.title, self@.body));
        }
        s
    }

    /// Builds the wire-ready record, attaching the configured marker label.
    pub fn to_wire(&self, label: &String) -> (r: WireIssue)
        ensures
            r.title@ == self@.title,
            r.body@ == self@.body,
            r.labels.deep_view() == seq![label@],
    {
        let mut labels: Vec<String> = Vec::new();
        labels.push(label.clone());
        proof {
            assert(labels.deep_view() =~= seq![label@]);
        }
        WireIssue { title: self.title.clone(), body: self.body.clone(), labels }
    }
}

impl Response {
    /// Wraps a title and an issue number as reported by the tracker.
    pub fn new(title: String, number: usize) -> (r: Response)
        ensures
            r@.title == title@,
            r@.number == number,
    {
        Response { title, number }
    }

    /// The reported title.
    pub fn get_title(&self) -> (r: String)
        ensures
            r@ == self@.title,
    {
        self.title.clone()
    }

    /// The reported issue number.
    pub fn get_number(&self) -> (r: usize)
        ensures
            r == self@.number,
    {
        self.number
    }
}

/// Removing one leading space from a string leaves trimming unchanged.
proof fn lemma_trim_leading_space(t: Seq<char>)
    ensures
        trim_spec(seq![' '] + t) == trim_spec(t),
{
    assert(is_whitespace(' '));
    assert((seq![' '] + t).len() > 0);
    assert((seq![' '] + t).drop_first() =~= t);
}

/// Gluing from a position past the head ignores the head.
proof fn lemma_glue_shift(head: Seq<char>, rest: Seq<Seq<char>>, i: int)
    requires
        0 <= i,
    ensures
        glue_lines(seq![head] + rest, i + 1) == glue_lines(rest, i),
    decreases rest.len() - i,
{
    let parts = seq![head] + rest;
    if i >= rest.len() {
    } else {
        assert(parts[i + 1] == rest[i]);
        lemma_glue_shift(head, rest, i + 1);
    }
}

/// Gluing the segments of `x` past the first back onto the first segment
/// recovers `x`: splitting loses nothing.
proof fn lemma_glue_split(x: Seq<char>)
    ensures
        split_lines(x)[0] + glue_lines(split_lines(x), 1) == x,
    decreases x.len(),
{
    lemma_split_lines_nonempty(x);
    let parts = split_lines(x);
    if x.len() == 0 {
        assert(parts[0] + glue_lines(parts, 1) =~= x);
    } else if x[0] == '\n' {
        let q = split_lines(x.drop_first());
        lemma_split_lines_nonempty(x.drop_first());
        lemma_glue_split(x.drop_first());
        lemma_glue_shift(Seq::<char>::empty(), q, 0);
        assert(glue_lines(parts, 1) == glue_lines(q, 0));
        assert(glue_lines(q, 0) =~= seq!['\n'] + x.drop_first());
        assert(parts[0] + glue_lines(parts, 1) =~= x);
    } else {
        let r = split_lines(x.drop_first());
        lemma_split_lines_nonempty(x.drop_first());
        lemma_glue_split(x.drop_first());
        assert(r =~= seq![r[0]] + r.drop_first());
        lemma_glue_shift(r[0], r.drop_first(), 0);
        assert(glue_lines(r, 1) == glue_lines(r.drop_first(), 0));
        assert(parts[0] =~= seq![x[0]] + r[0]);
        lemma_glue_shift(parts[0], r.drop_first(), 0);
        assert(glue_lines(parts, 1) == glue_lines(r.drop_first(), 0));
        assert((seq![x[0]] + r[0]) + glue_lines(r, 1) =~= seq![x[0]] + (r[0] + glue_lines(r, 1)));
        assert(seq![x[0]] + x.drop_first() =~= x);
        assert(parts[0] + glue_lines(parts, 1) == x);
    }
}

/// Formatting a candidate and parsing it back yields the same candidate,
/// whenever the title is nonempty, trimmed and free of newlines, and the
/// first line of the body is trimmed; lines of the body past the first
/// survive verbatim. This makes the editable text form a left inverse of
/// the candidate formatter.
pub proof fn lemma_editable_round_trip_any_body(title: Seq<char>, body: Seq<char>)
    requires
        title.len() > 0,
        trim_spec(title) == title,
        forall|j: int| 0 <= j < title.len() ==> title[j] != '\n',
        trim_spec(split_lines(body)[0]) == split_lines(body)[0],
    ensures
        parse_editable_spec(editable_spec(title, body)) == Some(IssueView { title, body }),
{
    reveal_strlit("Title: ");
    reveal_strlit("Title:");
    reveal_strlit("\nBody: ");
    reveal_strlit("Body: ");
    reveal_strlit("Body:");
    let s = editable_spec(title, body);
    let l0 = "Title: "@ + title;
    let bp = split_lines(body);
    lemma_split_lines_nonempty(body);
    let b0 = bp[0];
    let l1 = "Body: "@ + b0;
    assert(s =~= l0 + seq!['\n'] + ("Body: "@ + body));
    assert(forall|j: int| 0 <= j < l0.len() ==> l0[j] != '\n');
    lemma_split_lines_concat(l0, "Body: "@ + body);
    assert(forall|j: int| 0 <= j < "Body: "@.len() ==> "Body: "@[j] != '\n');
    lemma_split_lines_prepend("Body: "@, body);
    let parts = split_lines(s);
    assert(parts =~= seq![l0] + (seq![l1] + bp.drop_first()));
    assert(parts.len() >= 2);
    assert(parts[0] == l0 && parts[1] == l1);
    assert(l0.subrange(0, "Title:"@.len() as int) =~= "Title:"@);
    assert(starts_with_spec(parts[0], "Title:"@));
    assert(l1.subrange(0, "Body:"@.len() as int) =~= "Body:"@);
    assert(starts_with_spec(parts[1], "Body:"@));
    assert(l0.subrange("Title:"@.len() as int, l0.len() as int) =~= seq![' '] + title);
    assert(l1.subrange("Body:"@.len() as int, l1.len() as int) =~= seq![' '] + b0);
    lemma_trim_leading_space(title);
    lemma_trim_leading_space(b0);
    lemma_glue_shift(l0, seq![l1] + bp.drop_first(), 1);
    lemma_glue_shift(l1, bp.drop_first(), 0);
    assert(glue_lines(parts, 2) == glue_lines(bp.drop_first(), 0));
    lemma_glue_split(body);
    assert(bp =~= seq![b0] + bp.drop_first());
    lemma_glue_shift(b0, bp.drop_first(), 0);
    assert(glue_lines(bp, 1) == glue_lines(bp.drop_first(), 0));
    assert(b0 + glue_lines(parts, 2) == body);
}

/// Formatting a candidate with a single-line body and parsing it back
/// yields the same candidate, whenever the title is nonempty, trimmed and
/// free of newlines, and the body is trimmed.
pub proof fn lemma_editable_round_trip(title: Seq<char>, body: Seq<char>)
    requires
        title.len() > 0,
        trim_spec(title) == title,
        forall|j: int| 0 <= j < title.len() ==> title[j] != '\n',
        trim_spec(body) == body,
        forall|j: int| 0 <= j < body.len() ==> body[j] != '\n',
    ensures
        parse_editable_spec(editable_spec(title, body)) == Some(IssueView { title, body }),
{
    lemma_split_lines_no_newline(body);
    lemma_editable_round_trip_any_body(title, body);
}

} // verus!
