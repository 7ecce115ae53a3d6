//! The inclusion pattern restricting which tracked files are scanned: a
//! compiled glob kept together with its source text, so that contracts can
//! speak of matching as a function of the pattern text and the path.

use vstd::prelude::*;

verus! {

#[verifier::external_type_specification]
#[verifier::external_body]
pub struct ExPattern(glob::Pattern);

/// Whether the glob written as `pattern` matches `path`, under the default
/// match options. Glob matching is a function of the pattern text and the
/// path alone; what it holds is stated nowhere, so concrete matches are
/// established only by running the compiled pattern.
pub uninterp spec fn glob_match(pattern: Seq<char>, path: Seq<char>) -> bool;

/// A glob-style inclusion pattern over relative file paths, together with
/// the text it was compiled from.
pub struct InclusionPattern {
    inner: glob::Pattern,
    text: String,
}

impl InclusionPattern {
    /// The text the pattern was compiled from.
    pub closed spec fn spec_text(&self) -> Seq<char> {
        self.text@
    }

    /// Relies on glob::Pattern::new: compiles a Unix-shell-style glob,
    /// failing on invalid pattern syntax.
    #[verifier::external_body]
    pub fn new(pattern: &str) -> (r: Option<InclusionPattern>)
        ensures
            r matches Some(p) ==> p.spec_text() == pattern@,
    {
        match glob::Pattern::new(pattern) {
            Ok(inner) => Some(InclusionPattern { inner, text: pattern.to_owned() }),
            Err(_) => None,
        }
    }

    /// The pattern text.
    pub fn text(&self) -> (r: &String)
        ensures
            r@ == self.spec_text(),
    {
        &self.text
    }

    /// Relies on glob::Pattern::matches: whether `path` matches the compiled
    /// glob under the default match options, a function of the pattern text
    /// and the path alone.
    #[verifier::external_body]
    pub(crate) fn matches(&self, path: &str) -> (r: bool)
        ensures
            r == glob_match(self.spec_text(), path@),
    {
        self.inner.matches(path)
    }
}

/// The paths at positions `i` and later that satisfy the pattern, in order.
pub open spec fn select_from(files: Seq<Seq<char>>, i: int, pattern: Seq<char>) -> Seq<Seq<char>>
    decreases files.len() - i,
{
    if i < 0 || i >= files.len() {
        Seq::empty()
    } else {
        let rest = select_from(files, i + 1, pattern);
        if glob_match(pattern, files[i]) {
            seq![files[i]] + rest
        } else {
            rest
        }
    }
}

/// The paths that satisfy the pattern, in order.
pub open spec fn select_spec(files: Seq<Seq<char>>, pattern: Seq<char>) -> Seq<Seq<char>> {
    select_from(files, 0, pattern)
}

/// Restricts the tracked-file list to the paths the inclusion pattern
/// matches, keeping their order; only the selected files are ever opened.
pub fn select_files(files: &Vec<String>, pattern: &InclusionPattern) -> (r: Vec<String>)
    ensures
        r.deep_view() == select_spec(files.deep_view(), pattern.spec_text()),
{
    let ghost filesv = files.deep_view();
    let mut selected: Vec<String> = Vec::new();
    let mut i: usize = 0;
    proof {
        assert(selected.deep_view() + select_from(filesv, 0, pattern.spec_text()) =~= select_spec(
            filesv,
            pattern.spec_text(),
        ));
    }
    while i < files.len()
        invariant
            0 <= i <= files.len(),
            filesv == files.deep_view(),
            selected.deep_view() + select_from(filesv, i as int, pattern.spec_text())
                == select_spec(filesv, pattern.spec_text()),
        decreases files.len() - i,
    {
        if pattern.matches(files[i].as_str()) {
            let ghost before = selected.deep_view();
            selected.push(files[i].clone());
            proof {
                assert(selected.deep_view() =~= before + seq![filesv[i as int]]);
            }
        }
        proof {
            assert(selected.deep_view() + select_from(filesv, i + 1, pattern.spec_text())
                =~= select_spec(filesv, pattern.spec_text()));
        }
        i += 1;
    }
    proof {
        assert(selected.deep_view() =~= select_spec(filesv, pattern.spec_text()));
    }
    selected
}

/// A path the pattern does not match never survives selection, whatever the
/// file list holds: such a file is never handed on to be opened or scanned.
pub proof fn lemma_selection_excludes_nonmatching(
    files: Seq<Seq<char>>,
    pattern: Seq<char>,
    path: Seq<char>,
)
    requires
        !glob_match(pattern, path),
    ensures
        !select_spec(files, pattern).contains(path),
{
    lemma_select_from_excludes_nonmatching(files, 0, pattern, path);
}

/// Selection from any position onward never yields a non-matching path.
proof fn lemma_select_from_excludes_nonmatching(
    files: Seq<Seq<char>>,
    i: int,
    pattern: Seq<char>,
    path: Seq<char>,
)
    requires
        !glob_match(pattern, path),
    ensures
        !select_from(files, i, pattern).contains(path),
    decreases files.len() - i,
{
    if 0 <= i < files.len() {
        lemma_select_from_excludes_nonmatching(files, i + 1, pattern, path);
        let rest = select_from(files, i + 1, pattern);
        if glob_match(pattern, files[i]) {
            assert forall|k: int|
                0 <= k < select_from(files, i, pattern).len() implies select_from(
                files,
                i,
                pattern,
            )[k] != path by {
                if k == 0 {
                    assert(select_from(files, i, pattern)[0] == files[i]);
                } else {
                    assert(select_from(files, i, pattern)[k] == rest[k - 1]);
                    assert(!rest.contains(path));
                }
            }
            assert(!select_from(files, i, pattern).contains(path));
        }
    }
}

} // verus!
