use vstd::prelude::*;
use crate::path::is_absolute;

verus! {

/// True when `c` is one of the characters that make a pattern a glob.
pub open spec fn is_meta(c: char) -> bool {
    c == '*' || c == '?' || c == '['
}

/// A pattern is a glob exactly when some character of it is a metacharacter.
pub open spec fn has_meta(s: Seq<char>) -> bool {
    exists|i: int| 0 <= i < s.len() && is_meta(#[trigger] s[i])
}

/// Returns true if a string contains glob characters.
pub fn is_glob_like(s: &str) -> (r: bool)
    ensures
        r == has_meta(s@),
{
    let n = s.unicode_len();
    let mut i: usize = 0;
    while i < n
        invariant
            n == s@.len(),
            i <= n,
            forall|j: int| 0 <= j < i ==> !is_meta(#[trigger] s@[j]),
        decreases n - i,
    {
        let c = s.get_char(i);
        if c == '*' || c == '?' || c == '[' {
            return true;
        }
        i = i + 1;
    }
    false
}

/// A path separator, in either of its spellings.
pub open spec fn is_sep(c: char) -> bool {
    c == '/' || c == '\\'
}

/// `i` is the position of the first metacharacter of `s`.
pub open spec fn is_first_meta(s: Seq<char>, i: int) -> bool {
    0 <= i < s.len() && is_meta(s[i]) && forall|j: int| 0 <= j < i ==> !is_meta(#[trigger] s[j])
}

/// Index of the last separator of `s`, or -1 when there is none.
pub open spec fn last_sep(s: Seq<char>) -> int
    decreases s.len(),
{
    if s.len() == 0 {
        -1
    } else if is_sep(s.last()) {
        s.len() - 1
    } else {
        last_sep(s.drop_last())
    }
}

/// Where the search for a pattern starts: the text before its first
/// metacharacter, cut after the last separator in it; `.` (the current
/// directory) when no separator precedes the metacharacter; the whole
/// pattern when it has no metacharacter.
pub open spec fn search_root(p: Seq<char>) -> Seq<char> {
    if has_meta(p) {
        let m = choose|i: int| is_first_meta(p, i);
        let k = last_sep(p.subrange(0, m));
        if k < 0 {
            seq!['.']
        } else {
            p.subrange(0, k + 1)
        }
    } else {
        p
    }
}

proof fn lemma_first_meta_unique(s: Seq<char>, a: int, b: int)
    requires
        is_first_meta(s, a),
        is_first_meta(s, b),
    ensures
        a == b,
{
    if a < b {
        assert(!is_meta(s[a]));
    } else if b < a {
        assert(!is_meta(s[b]));
    }
}

/// Compute where to start searching for a glob pattern: the text before the
/// first metacharacter, truncated after its last path separator, or `.` for
/// the current directory when no separator comes before it.
pub fn infer_search_root(pattern: &str) -> (r: String)
    ensures
        r@ == search_root(pattern@),
{
    let n = pattern.unicode_len();
    let mut m: usize = 0;
    while m < n && !(pattern.get_char(m) == '*' || pattern.get_char(m) == '?' || pattern.get_char(m) == '[')
        invariant
            n == pattern@.len(),
            m <= n,
            forall|j: int| 0 <= j < m ==> !is_meta(#[trigger] pattern@[j]),
        decreases n - m,
    {
        m = m + 1;
    }
    if m == n {
        assert(!has_meta(pattern@));
        return String::from_str(pattern);
    }
    assert(is_first_meta(pattern@, m as int));
    proof {
        let c = choose|i: int| is_first_meta(pattern@, i);
        lemma_first_meta_unique(pattern@, c, m as int);
    }
    let before = pattern.substring_char(0, m);
    let mut k: usize = m;
    assert(before@.subrange(0, m as int) =~= before@);
    while k > 0 && !(before.get_char(k - 1) == '/' || before.get_char(k - 1) == '\\')
        invariant
            m == before@.len(),
            k <= m,
            last_sep(before@) == last_sep(before@.subrange(0, k as int)),
        decreases k,
    {
        assert(before@.subrange(0, k as int).drop_last() =~= before@.subrange(0, k - 1));
        k = k - 1;
    }
    if k == 0 {
        assert(before@.subrange(0, 0) =~= Seq::<char>::empty());
        proof {
            reveal_strlit(".");
        }
        String::from_str(".")
    } else {
        assert(last_sep(before@.subrange(0, k as int)) == k - 1);
        assert(before@.subrange(0, k as int) =~= pattern@.subrange(0, k as int));
        String::from_str(before.substring_char(0, k))
    }
}

/// The text that a file found for a glob is matched against: for an
/// absolute pattern, the file's canonical path where one could be had; for a
/// relative one, the file's path relative to the current directory where it
/// has one; the path as found otherwise.
pub open spec fn match_subject_of(
    pattern: Seq<char>,
    found: Seq<char>,
    canonical: Option<Seq<char>>,
    relative: Option<Seq<char>>,
) -> Seq<char> {
    let alt = if is_absolute(pattern) { canonical } else { relative };
    match alt {
        Some(a) => a,
        None => found,
    }
}

/// Pick the text that `found` is matched against for `pattern`, given what
/// the file system said of it: its canonical form and its form relative to
/// the current directory, each when it could be had.
pub fn match_subject(pattern: &str, found: String, canonical: Option<String>, relative: Option<String>) -> (r: String)
    ensures
        r@ == match_subject_of(
            pattern@,
            found@,
            match canonical { Some(c) => Some(c@), None => None },
            match relative { Some(c) => Some(c@), None => None },
        ),
{
    let absolute = pattern.unicode_len() > 0 && pattern.get_char(0) == '/';
    let alt = if absolute { canonical } else { relative };
    match alt {
        Some(a) => a,
        None => found,
    }
}

} // verus!
