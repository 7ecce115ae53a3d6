//! Small presentation helpers and the closed set of dispositions a user can
//! choose for a candidate; the prompting itself runs outside the library.

use vstd::prelude::*;
use vstd::string::StringExecFns;

verus! {

/// A word with a plural `s` appended unless the count is exactly one.
pub open spec fn plural_spec(number: int, word: Seq<char>) -> Seq<char> {
    if number == 1 {
        word
    } else {
        word + "s"@
    }
}

/// Pluralizes `word` for a count: the word itself for one, the word with a
/// trailing `s` otherwise.
pub fn handle_plural(number: &usize, word: &str) -> (r: String)
    ensures
        r@ == plural_spec(*number as int, word@),
{
    if *number == 1 {
        String::from_str(word)
    } else {
        let mut s = String::from_str(word);
        s.append("s");
        s
    }
}

/// What the user chose to do with one candidate.
#[derive(Clone, Copy, PartialEq, Eq, Structural, Debug)]
pub enum Disposition {
    Open,
    Edit,
    Skip,
    Exit,
}

/// Maps the index of the chosen menu entry to its disposition; any index
/// past the listed entries means leaving.
pub fn disposition_from_selection(selection: usize) -> (r: Disposition)
    ensures
        r == (if selection == 0 {
            Disposition::Open
        } else if selection == 1 {
            Disposition::Edit
        } else if selection == 2 {
            Disposition::Skip
        } else {
            Disposition::Exit
        }),
{
    if selection == 0 {
        Disposition::Open
    } else if selection == 1 {
        Disposition::Edit
    } else if selection == 2 {
        Disposition::Skip
    } else {
        Disposition::Exit
    }
}

} // verus!
