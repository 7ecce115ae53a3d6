//! Parsing of version-control command output: the remote's owner/repo name
//! from a remote URL, and the tracked-file list from a file listing. The
//! commands themselves run outside the library; only their text arrives here.

use vstd::prelude::*;
use vstd::string::StrSliceExecFns;
use vstd::string::StringExecFns;

use crate::strutil::find_spec;
use crate::strutil::find_sub;
use crate::strutil::lemma_find_spec_characterization;
use crate::strutil::split_lines;
use crate::strutil::split_newlines;

verus! {

/// The `owner/repo` name in a remote URL: everything after the first
/// `github.com/`, cut before the first `.git` that follows; none when the
/// URL names no such host path.
pub open spec fn remote_name_spec(output: Seq<char>) -> Option<Seq<char>> {
    match find_spec(output, "github.com/"@) {
        None => None,
        Some(i) => {
            let rest = output.subrange(i + "github.com/"@.len(), output.len() as int);
            match find_spec(rest, ".git"@) {
                None => Some(rest),
                Some(j) => Some(rest.subrange(0, j)),
            }
        },
    }
}

/// Extracts the `owner/repo` name from the output of a remote-URL query.
pub fn parse_remote_name(output: &str) -> (r: Option<String>)
    ensures
        match r {
            Some(name) => remote_name_spec(output@) == Some(name@),
            None => remote_name_spec(output@) is None,
        },
{
    let host = "github.com/";
    let i = match find_sub(output, host) {
        Some(i) => i,
        None => {
            return None;
        },
    };
    proof {
        lemma_find_spec_characterization(output@, host@);
    }
    let out_len = output.unicode_len();
    let rest = output.substring_char(i + host.unicode_len(), out_len);
    proof {
        lemma_find_spec_characterization(rest@, ".git"@);
    }
    let name = match find_sub(rest, ".git") {
        Some(j) => rest.substring_char(0, j),
        None => rest,
    };
    Some(String::from_str(name))
}

/// The nonempty segments at positions `i` and later, in order.
pub open spec fn nonempty_from(parts: Seq<Seq<char>>, i: int) -> Seq<Seq<char>>
    decreases parts.len() - i,
{
    if i < 0 || i >= parts.len() {
        Seq::empty()
    } else {
        let rest = nonempty_from(parts, i + 1);
        if parts[i].len() > 0 {
            seq![parts[i]] + rest
        } else {
            rest
        }
    }
}

/// The tracked-file paths in a newline-separated listing: its nonempty
/// lines, in order.
pub open spec fn tracked_files_spec(output: Seq<char>) -> Seq<Seq<char>> {
    nonempty_from(split_lines(output), 0)
}

/// Extracts the tracked-file paths from the output of a file listing:
/// one path per nonempty line, in order.
pub fn parse_tracked_files(output: &str) -> (r: Vec<String>)
    ensures
        r.deep_view() == tracked_files_spec(output@),
{
    let parts = split_newlines(output);
    let ghost partsv = parts.deep_view();
    let mut files: Vec<String> = Vec::new();
    let mut i: usize = 0;
    proof {
        assert(files.deep_view() + nonempty_from(partsv, 0) =~= tracked_files_spec(output@));
    }
    while i < parts.len()
        invariant
            0 <= i <= parts.len(),
            partsv == parts.deep_view(),
            partsv.len() == parts.len(),
            files.deep_view() + nonempty_from(partsv, i as int) == tracked_files_spec(output@),
        decreases parts.len() - i,
    {
        if !parts[i].as_str().is_empty() {
            let ghost before = files.deep_view();
            files.push(parts[i].clone());
            proof {
                assert(files.deep_view() =~= before + seq![partsv[i as int]]);
            }
        }
        proof {
            assert(files.deep_view() + nonempty_from(partsv, i + 1) =~= tracked_files_spec(
                output@,
            ));
        }
        i += 1;
    }
    proof {
        assert(files.deep_view() =~= tracked_files_spec(output@));
    }
    files
}

} // verus!
