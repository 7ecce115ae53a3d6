//! String utilities: substring search, prefix tests, whitespace trimming,
//! line splitting and decimal rendering, each verified against a spec-level
//! model over `Seq<char>`.

use vstd::prelude::*;
use vstd::string::StrSliceExecFns;
use vstd::string::StringExecFns;

verus! {

/// `pat` occurs in `s` starting at position `i`.
pub open spec fn occurs_at(s: Seq<char>, pat: Seq<char>, i: int) -> bool {
    0 <= i && i + pat.len() <= s.len() && s.subrange(i, i + pat.len() as int) == pat
}

/// The position of the first occurrence of `pat` in `s` at or after `i`,
/// if there is one.
pub open spec fn find_from(s: Seq<char>, pat: Seq<char>, i: int) -> Option<int>
    decreases s.len() - i + 1,
{
    if i < 0 || i + pat.len() > s.len() {
        None
    } else if s.subrange(i, i + pat.len() as int) == pat {
        Some(i)
    } else {
        find_from(s, pat, i + 1)
    }
}

/// The position of the first occurrence of `pat` in `s`, if there is one.
pub open spec fn find_spec(s: Seq<char>, pat: Seq<char>) -> Option<int> {
    find_from(s, pat, 0)
}

/// `find_from` returns exactly the first position `>= i` where `pat` occurs.
proof fn lemma_find_from_characterization(s: Seq<char>, pat: Seq<char>, i: int)
    requires
        0 <= i,
    ensures
        match find_from(s, pat, i) {
            Some(k) => occurs_at(s, pat, k) && i <= k && forall|j: int|
                i <= j < k ==> !occurs_at(s, pat, j),
            None => forall|j: int| i <= j ==> !occurs_at(s, pat, j),
        },
    decreases s.len() - i + 1,
{
    if i + pat.len() > s.len() {
        assert forall|j: int| i <= j implies !occurs_at(s, pat, j) by {
            assert(j + pat.len() >= i + pat.len());
        }
    } else if s.subrange(i, i + pat.len() as int) == pat {
    } else {
        lemma_find_from_characterization(s, pat, i + 1);
        assert(!occurs_at(s, pat, i));
    }
}

/// `find_spec` returns exactly the first position where `pat` occurs.
pub proof fn lemma_find_spec_characterization(s: Seq<char>, pat: Seq<char>)
    ensures
        match find_spec(s, pat) {
            Some(k) => occurs_at(s, pat, k) && forall|j: int| 0 <= j < k ==> !occurs_at(s, pat, j),
            None => forall|j: int| !occurs_at(s, pat, j),
        },
{
    lemma_find_from_characterization(s, pat, 0);
    if find_spec(s, pat) is None {
        assert(forall|j: int| j < 0 ==> !occurs_at(s, pat, j));
    }
}

/// Whether `pat` occurs in `s` starting at character position `i`.
fn match_at(s: &str, pat: &str, i: usize) -> (r: bool)
    requires
        i <= s@.len(),
    ensures
        r == occurs_at(s@, pat@, i as int),
{
    let s_len = s.unicode_len();
    let p_len = pat.unicode_len();
    if p_len > s_len - i {
        assert(!occurs_at(s@, pat@, i as int));
        return false;
    }
    let mut j: usize = 0;
    while j < p_len
        invariant
            i + p_len <= s_len,
            s_len == s@.len(),
            p_len == pat@.len(),
            0 <= j <= p_len,
            forall|k: int| 0 <= k < j ==> s@[i + k] == pat@[k],
        decreases p_len - j,
    {
        if s.get_char(i + j) != pat.get_char(j) {
            assert(s@.subrange(i as int, i + pat@.len() as int)[j as int] != pat@[j as int]);
            return false;
        }
        j += 1;
    }
    assert(s@.subrange(i as int, i + pat@.len() as int) =~= pat@);
    true
}

/// The position of the first occurrence of `pat` in `s`, as `str::find`
/// reports it, counted in characters.
pub fn find_sub(s: &str, pat: &str) -> (r: Option<usize>)
    ensures
        match r {
            Some(k) => find_spec(s@, pat@) == Some(k as int),
            None => find_spec(s@, pat@) is None,
        },
{
    let s_len = s.unicode_len();
    let p_len = pat.unicode_len();
    if p_len > s_len {
        return None;
    }
    if p_len == 0 {
        assert(s@.subrange(0, 0) =~= pat@);
        return Some(0);
    }
    let mut i: usize = 0;
    while i <= s_len - p_len
        invariant
            0 < p_len <= s_len,
            s_len == s@.len(),
            p_len == pat@.len(),
            i <= s_len - p_len + 1,
            find_from(s@, pat@, 0) == find_from(s@, pat@, i as int),
        decreases s_len - i,
    {
        if match_at(s, pat, i) {
            return Some(i);
        }
        assert(find_from(s@, pat@, i as int) == find_from(s@, pat@, i + 1));
        i += 1;
    }
    None
}

/// `s` begins with `pre`.
pub open spec fn starts_with_spec(s: Seq<char>, pre: Seq<char>) -> bool {
    occurs_at(s, pre, 0)
}

/// Whether `s` begins with `pre`.
pub fn starts_with_prefix(s: &str, pre: &str) -> (r: bool)
    ensures
        r == starts_with_spec(s@, pre@),
{
    match_at(s, pre, 0)
}

/// The characters that count as whitespace for trimming: the Unicode
/// `White_Space` set, as `char::is_whitespace` recognizes it.
pub open spec fn is_whitespace(c: char) -> bool {
    ||| c == ' '
    ||| c == '\u{9}'
    ||| c == '\u{a}'
    ||| c == '\u{b}'
    ||| c == '\u{c}'
    ||| c == '\u{d}'
    ||| c == '\u{85}'
    ||| c == '\u{a0}'
    ||| c == '\u{1680}'
    ||| c == '\u{2000}'
    ||| c == '\u{2001}'
    ||| c == '\u{2002}'
    ||| c == '\u{2003}'
    ||| c == '\u{2004}'
    ||| c == '\u{2005}'
    ||| c == '\u{2006}'
    ||| c == '\u{2007}'
    ||| c == '\u{2008}'
    ||| c == '\u{2009}'
    ||| c == '\u{200a}'
    ||| c == '\u{2028}'
    ||| c == '\u{2029}'
    ||| c == '\u{202f}'
    ||| c == '\u{205f}'
    ||| c == '\u{3000}'
}

/// Whether `c` is a whitespace character.
fn is_whitespace_char(c: char) -> (r: bool)
    ensures
        r == is_whitespace(c),
{
    c == ' ' || c == '\u{9}' || c == '\u{a}' || c == '\u{b}' || c == '\u{c}' || c == '\u{d}'
        || c == '\u{85}' || c == '\u{a0}' || c == '\u{1680}' || c == '\u{2000}' || c == '\u{2001}'
        || c == '\u{2002}' || c == '\u{2003}' || c == '\u{2004}' || c == '\u{2005}'
        || c == '\u{2006}' || c == '\u{2007}' || c == '\u{2008}' || c == '\u{2009}'
        || c == '\u{200a}' || c == '\u{2028}' || c == '\u{2029}' || c == '\u{202f}'
        || c == '\u{205f}' || c == '\u{3000}'
}

/// `s` with leading whitespace removed.
pub open spec fn trim_front(s: Seq<char>) -> Seq<char>
    decreases s.len(),
{
    if s.len() > 0 && is_whitespace(s[0]) {
        trim_front(s.drop_first())
    } else {
        s
    }
}

/// `s` with trailing whitespace removed.
pub open spec fn trim_back(s: Seq<char>) -> Seq<char>
    decreases s.len(),
{
    if s.len() > 0 && is_whitespace(s[s.len() - 1]) {
        trim_back(s.drop_last())
    } else {
        s
    }
}

/// `s` with leading and trailing whitespace removed.
pub open spec fn trim_spec(s: Seq<char>) -> Seq<char> {
    trim_back(trim_front(s))
}

/// If the first `k` characters of `s` are whitespace and character `k` (when
/// present) is not, `trim_front(s)` is the suffix from `k` on.
proof fn lemma_trim_front_subrange(s: Seq<char>, k: int)
    requires
        0 <= k <= s.len(),
        forall|j: int| 0 <= j < k ==> is_whitespace(s[j]),
        k == s.len() || !is_whitespace(s[k]),
    ensures
        trim_front(s) == s.subrange(k, s.len() as int),
    decreases k,
{
    if k == 0 {
        assert(s.subrange(0, s.len() as int) =~= s);
    } else {
        lemma_trim_front_subrange(s.drop_first(), k - 1);
        assert(s.drop_first().subrange(k - 1, s.drop_first().len() as int) =~= s.subrange(
            k,
            s.len() as int,
        ));
    }
}

/// If every character of `s` from `m` on is whitespace and character `m - 1`
/// (when present) is not, `trim_back(s)` is the prefix up to `m`.
proof fn lemma_trim_back_subrange(s: Seq<char>, m: int)
    requires
        0 <= m <= s.len(),
        forall|j: int| m <= j < s.len() ==> is_whitespace(s[j]),
        m == 0 || !is_whitespace(s[m - 1]),
    ensures
        trim_back(s) == s.subrange(0, m),
    decreases s.len(),
{
    if m == s.len() {
        if s.len() > 0 && is_whitespace(s[s.len() - 1]) {
            assert(!is_whitespace(s[m - 1]));
        }
        assert(s.subrange(0, s.len() as int) =~= s);
    } else {
        lemma_trim_back_subrange(s.drop_last(), m);
        assert(s.drop_last().subrange(0, m) =~= s.subrange(0, m));
    }
}

/// `s` with leading and trailing whitespace removed.
pub fn trim<'a>(s: &'a str) -> (r: &'a str)
    ensures
        r@ == trim_spec(s@),
{
    let n = s.unicode_len();
    let mut a: usize = 0;
    while a < n && is_whitespace_char(s.get_char(a))
        invariant
            0 <= a <= n,
            n == s@.len(),
            forall|j: int| 0 <= j < a ==> is_whitespace(s@[j]),
        decreases n - a,
    {
        a += 1;
    }
    proof {
        lemma_trim_front_subrange(s@, a as int);
    }
    if a == n {
        let r = s.substring_char(n, n);
        proof {
            lemma_trim_back_subrange(s@.subrange(n as int, n as int), 0);
        }
        return r;
    }
    let mut b: usize = n;
    while b > a && is_whitespace_char(s.get_char(b - 1))
        invariant
            a <= b <= n,
            n == s@.len(),
            a < n,
            !is_whitespace(s@[a as int]),
            forall|j: int| b <= j < n ==> is_whitespace(s@[j]),
        decreases b,
    {
        b -= 1;
    }
    let r = s.substring_char(a, b);
    proof {
        let front = s@.subrange(a as int, n as int);
        lemma_trim_back_subrange(front, b - a);
        assert(front.subrange(0, b - a) =~= s@.subrange(a as int, b as int));
    }
    r
}

/// The segments of `s` between occurrences of the newline character, in
/// order; always at least one segment.
pub open spec fn split_lines(s: Seq<char>) -> Seq<Seq<char>>
    decreases s.len(),
{
    if s.len() == 0 {
        seq![s]
    } else if s[0] == '\n' {
        seq![Seq::<char>::empty()] + split_lines(s.drop_first())
    } else {
        let rest = split_lines(s.drop_first());
        seq![seq![s[0]] + rest[0]] + rest.drop_first()
    }
}

/// Splitting always yields at least one segment.
pub proof fn lemma_split_lines_nonempty(s: Seq<char>)
    ensures
        split_lines(s).len() >= 1,
    decreases s.len(),
{
    if s.len() > 0 {
        lemma_split_lines_nonempty(s.drop_first());
    }
}

/// A string without newlines splits into itself alone.
pub proof fn lemma_split_lines_no_newline(s: Seq<char>)
    requires
        forall|j: int| 0 <= j < s.len() ==> s[j] != '\n',
    ensures
        split_lines(s) == seq![s],
    decreases s.len(),
{
    if s.len() == 0 {
    } else {
        lemma_split_lines_no_newline(s.drop_first());
        let rest = split_lines(s.drop_first());
        assert(seq![s[0]] + rest[0] =~= s);
        assert(seq![seq![s[0]] + rest[0]] + rest.drop_first() =~= seq![s]);
    }
}

/// Splitting at a leading newline-free prefix: the prefix becomes the first
/// segment and the remainder splits on its own.
pub proof fn lemma_split_lines_concat(a: Seq<char>, b: Seq<char>)
    requires
        forall|j: int| 0 <= j < a.len() ==> a[j] != '\n',
    ensures
        split_lines(a + seq!['\n'] + b) == seq![a] + split_lines(b),
    decreases a.len(),
{
    let s = a + seq!['\n'] + b;
    if a.len() == 0 {
        assert(s[0] == '\n');
        assert(s.drop_first() =~= b);
        assert(a =~= Seq::<char>::empty());
        assert(seq![Seq::<char>::empty()] + split_lines(b) =~= seq![a] + split_lines(b));
    } else {
        assert(s[0] == a[0]);
        assert(s[0] != '\n');
        assert(s.drop_first() =~= a.drop_first() + seq!['\n'] + b);
        lemma_split_lines_concat(a.drop_first(), b);
        let rest = split_lines(s.drop_first());
        assert(rest == seq![a.drop_first()] + split_lines(b));
        assert(seq![s[0]] + rest[0] =~= a);
        assert(seq![seq![s[0]] + rest[0]] + rest.drop_first() =~= seq![a] + split_lines(b));
    }
}

/// Prepending newline-free text extends the first segment and leaves the
/// rest alone.
pub proof fn lemma_split_lines_prepend(a: Seq<char>, x: Seq<char>)
    requires
        forall|j: int| 0 <= j < a.len() ==> a[j] != '\n',
    ensures
        split_lines(a + x) == seq![a + split_lines(x)[0]] + split_lines(x).drop_first(),
    decreases a.len(),
{
    lemma_split_lines_nonempty(x);
    let xp = split_lines(x);
    if a.len() == 0 {
        assert(a + x =~= x);
        assert(a + xp[0] =~= xp[0]);
        assert(seq![a + xp[0]] + xp.drop_first() =~= xp);
    } else {
        let s = a + x;
        assert(s.len() > 0);
        assert(s[0] == a[0]);
        assert(s[0] != '\n');
        assert(s.drop_first() =~= a.drop_first() + x);
        lemma_split_lines_prepend(a.drop_first(), x);
        let rest = split_lines(s.drop_first());
        assert(rest == seq![a.drop_first() + xp[0]] + xp.drop_first());
        assert(seq![s[0]] + rest[0] =~= a + xp[0]);
        assert(seq![seq![s[0]] + rest[0]] + rest.drop_first() =~= seq![a + xp[0]]
            + xp.drop_first());
    }
}

/// If the first newline of `s` stands at `k`, `s` splits into the prefix
/// before `k` followed by the segments of the remainder.
proof fn lemma_split_lines_first_newline(s: Seq<char>, k: int)
    requires
        0 <= k < s.len(),
        s[k] == '\n',
        forall|j: int| 0 <= j < k ==> s[j] != '\n',
    ensures
        split_lines(s) == seq![s.subrange(0, k)] + split_lines(s.subrange(k + 1, s.len() as int)),
{
    let a = s.subrange(0, k);
    let b = s.subrange(k + 1, s.len() as int);
    assert(s =~= a + seq!['\n'] + b);
    lemma_split_lines_concat(a, b);
}

/// The segments of `s` between newline characters, as owned strings.
pub fn split_newlines(s: &str) -> (r: Vec<String>)
    ensures
        r.deep_view() == split_lines(s@),
{
    let n = s.unicode_len();
    let mut parts: Vec<String> = Vec::new();
    let mut start: usize = 0;
    let mut i: usize = 0;
    proof {
        assert(s@.subrange(0, n as int) =~= s@);
        assert(parts.deep_view() =~= Seq::<Seq<char>>::empty());
        assert(parts.deep_view() + split_lines(s@) =~= split_lines(s@));
    }
    while i < n
        invariant
            0 <= start <= i <= n,
            n == s@.len(),
            forall|j: int| start <= j < i ==> s@[j] != '\n',
            split_lines(s@) == parts.deep_view() + split_lines(
                s@.subrange(start as int, n as int),
            ),
        decreases n - i,
    {
        if s.get_char(i) == '\n' {
            let piece = s.substring_char(start, i);
            let ghost old_parts = parts.deep_view();
            parts.push(String::from_str(piece));
            proof {
                let suffix = s@.subrange(start as int, n as int);
                lemma_split_lines_first_newline(suffix, i - start);
                assert(suffix.subrange(0, i - start) =~= s@.subrange(start as int, i as int));
                assert(suffix.subrange(i - start + 1, suffix.len() as int) =~= s@.subrange(
                    i + 1,
                    n as int,
                ));
                assert(parts.deep_view() =~= old_parts + seq![piece@]);
                assert(parts.deep_view() + split_lines(s@.subrange(i + 1, n as int))
                    =~= old_parts + split_lines(suffix));
            }
            start = i + 1;
        }
        i += 1;
    }
    let last = s.substring_char(start, n);
    let ghost old_parts = parts.deep_view();
    parts.push(String::from_str(last));
    proof {
        lemma_split_lines_no_newline(s@.subrange(start as int, n as int));
        assert(parts.deep_view() =~= old_parts + seq![last@]);
        assert(parts.deep_view() =~= split_lines(s@));
    }
    parts
}

/// The decimal digit character for `d`.
pub open spec fn digit_char(d: int) -> char {
    if d == 0 {
        '0'
    } else if d == 1 {
        '1'
    } else if d == 2 {
        '2'
    } else if d == 3 {
        '3'
    } else if d == 4 {
        '4'
    } else if d == 5 {
        '5'
    } else if d == 6 {
        '6'
    } else if d == 7 {
        '7'
    } else if d == 8 {
        '8'
    } else {
        '9'
    }
}

/// The decimal rendering of a nonnegative number, without leading zeros.
pub open spec fn dec_spec(n: int) -> Seq<char>
    decreases n,
{
    if n < 10 {
        seq![digit_char(n)]
    } else {
        dec_spec(n / 10).push(digit_char(n % 10))
    }
}

/// Appends the digit character for `d` to `s`.
fn append_digit(s: &mut String, d: u32)
    requires
        d < 10,
    ensures
        final(s)@ == old(s)@ + seq![digit_char(d as int)],
{
    proof {
        reveal_strlit("0");
        reveal_strlit("1");
        reveal_strlit("2");
        reveal_strlit("3");
        reveal_strlit("4");
        reveal_strlit("5");
        reveal_strlit("6");
        reveal_strlit("7");
        reveal_strlit("8");
        reveal_strlit("9");
    }
    if d == 0 {
        s.append("0");
        assert("0"@ =~= seq![digit_char(0)]);
    } else if d == 1 {
        s.append("1");
        assert("1"@ =~= seq![digit_char(1)]);
    } else if d == 2 {
        s.append("2");
        assert("2"@ =~= seq![digit_char(2)]);
    } else if d == 3 {
        s.append("3");
        assert("3"@ =~= seq![digit_char(3)]);
    } else if d == 4 {
        s.append("4");
        assert("4"@ =~= seq![digit_char(4)]);
    } else if d == 5 {
        s.append("5");
        assert("5"@ =~= seq![digit_char(5)]);
    } else if d == 6 {
        s.append("6");
        assert("6"@ =~= seq![digit_char(6)]);
    } else if d == 7 {
        s.append("7");
        assert("7"@ =~= seq![digit_char(7)]);
    } else if d == 8 {
        s.append("8");
        assert("8"@ =~= seq![digit_char(8)]);
    } else {
        s.append("9");
        assert("9"@ =~= seq![digit_char(9)]);
    }
}

/// The decimal rendering of `n`.
pub fn u32_to_string(n: u32) -> (r: String)
    ensures
        r@ == dec_spec(n as int),
    decreases n,
{
    if n < 10 {
        let mut s = String::new();
        append_digit(&mut s, n);
        proof {
            assert(s@ =~= dec_spec(n as int));
        }
        s
    } else {
        let mut s = u32_to_string(n / 10);
        append_digit(&mut s, n % 10);
        proof {
            assert(s@ =~= dec_spec(n as int));
        }
        s
    }
}

} // verus!
