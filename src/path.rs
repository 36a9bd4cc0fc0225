use vstd::prelude::*;

verus! {

/// Index of the last occurrence of `c` in `s`, or -1 when there is none.
pub open spec fn last_index(s: Seq<char>, c: char) -> int
    decreases s.len(),
{
    if s.len() == 0 {
        -1
    } else if s.last() == c {
        s.len() - 1
    } else {
        last_index(s.drop_last(), c)
    }
}

/// `s` with its trailing `/` characters and trailing `/.` segments removed,
/// keeping a lone root `/`.
pub open spec fn trim_trailing_seps(s: Seq<char>) -> Seq<char>
    decreases s.len(),
{
    if s.len() > 1 && (s.last() == '/' || (s.last() == '.' && s[s.len() - 2] == '/')) {
        trim_trailing_seps(s.drop_last())
    } else {
        s
    }
}

/// `s` with each run of `/` characters cut to a single one.
pub open spec fn collapse_seps(s: Seq<char>) -> Seq<char>
    decreases s.len(),
{
    if s.len() == 0 {
        s
    } else if s.len() > 1 && s.last() == '/' && s[s.len() - 2] == '/' {
        collapse_seps(s.drop_last())
    } else {
        collapse_seps(s.drop_last()).push(s.last())
    }
}

/// A path is absolute when it starts at the root.
pub open spec fn is_absolute(p: Seq<char>) -> bool {
    p.len() > 0 && p[0] == '/'
}

/// The last segment of a path (after trailing separators are dropped).
pub open spec fn last_segment(p: Seq<char>) -> Seq<char> {
    let q = trim_trailing_seps(p);
    q.subrange(last_index(q, '/') + 1, q.len() as int)
}

/// The file name of a path: its last segment, unless that is empty, `.` or `..`.
pub open spec fn file_name(p: Seq<char>) -> Seq<char> {
    let n = last_segment(p);
    if n == seq!['.'] || n == seq!['.', '.'] {
        Seq::empty()
    } else {
        n
    }
}

/// A file name without its final extension. A name with no dot, or whose
/// only dot is its first character, is its own stem.
pub open spec fn stem_of_name(n: Seq<char>) -> Seq<char> {
    let k = last_index(n, '.');
    if k <= 0 {
        n
    } else {
        n.subrange(0, k)
    }
}

/// The stem of a path's file name.
pub open spec fn stem(p: Seq<char>) -> Seq<char> {
    stem_of_name(file_name(p))
}

/// Every `{}` of `e` replaced by `stem`, scanning from the left.
pub open spec fn substitute(e: Seq<char>, stem: Seq<char>) -> Seq<char>
    decreases e.len(),
{
    if e.len() == 0 {
        e
    } else if e.len() >= 2 && e[0] == '{' && e[1] == '}' {
        stem + substitute(e.subrange(2, e.len() as int), stem)
    } else {
        seq![e[0]] + substitute(e.subrange(1, e.len() as int), stem)
    }
}

/// A path has a parent unless it is empty or is the root itself.
pub open spec fn has_parent(p: Seq<char>) -> bool {
    let q = trim_trailing_seps(p);
    q.len() > 0 && q != seq!['/']
}

/// The directory that holds a path: everything before its last segment,
/// without trailing separators (the root stays `/`).
pub open spec fn parent(p: Seq<char>) -> Seq<char> {
    let q = trim_trailing_seps(p);
    trim_trailing_seps(q.subrange(0, last_index(q, '/') + 1))
}

/// `rel` placed under the directory `dir`.
pub open spec fn join(dir: Seq<char>, rel: Seq<char>) -> Seq<char> {
    if dir.len() == 0 {
        rel
    } else if dir.last() == '/' {
        dir + rel
    } else {
        dir + seq!['/'] + rel
    }
}

/// Where a rename of `source` goes under the replacement expression `expr`:
/// the substituted expression itself when it is absolute, otherwise a
/// sibling of `source`.
pub open spec fn build_target(source: Seq<char>, expr: Seq<char>) -> Seq<char> {
    let built = substitute(expr, stem(source));
    if is_absolute(built) {
        built
    } else if has_parent(source) {
        join(parent(source), built)
    } else {
        built
    }
}

fn last_index_exec(s: &str, c: char) -> (r: Option<usize>)
    ensures
        match r {
            Some(k) => last_index(s@, c) == k && k < s@.len(),
            None => last_index(s@, c) == -1,
        },
{
    let n = s.unicode_len();
    let mut i: usize = n;
    assert(s@.subrange(0, n as int) =~= s@);
    while i > 0
        invariant
            n == s@.len(),
            i <= n,
            last_index(s@, c) == last_index(s@.subrange(0, i as int), c),
        decreases i,
    {
        let ghost sub = s@.subrange(0, i as int);
        assert(sub.drop_last() =~= s@.subrange(0, i - 1));
        if s.get_char(i - 1) == c {
            return Some(i - 1);
        }
        i = i - 1;
    }
    None
}

pub(crate) fn trim_trailing_seps_exec(s: &str) -> (r: &str)
    ensures
        r@ == trim_trailing_seps(s@),
{
    let n = s.unicode_len();
    let mut i: usize = n;
    assert(s@.subrange(0, n as int) =~= s@);
    while i > 1 && (s.get_char(i - 1) == '/' || (s.get_char(i - 1) == '.' && s.get_char(i - 2) == '/'))
        invariant
            n == s@.len(),
            i <= n,
            trim_trailing_seps(s@) == trim_trailing_seps(s@.subrange(0, i as int)),
        decreases i,
    {
        assert(s@.subrange(0, i as int).drop_last() =~= s@.subrange(0, i - 1));
        i = i - 1;
    }
    s.substring_char(0, i)
}

/// `s` with each run of `/` characters cut to a single one.
pub(crate) fn collapse_seps_exec(s: &str) -> (r: String)
    ensures
        r@ == collapse_seps(s@),
{
    let n = s.unicode_len();
    let mut out = String::new();
    let mut i: usize = 0;
    while i < n
        invariant
            n == s@.len(),
            i <= n,
            out@ == collapse_seps(s@.subrange(0, i as int)),
        decreases n - i,
    {
        let ghost cur = s@.subrange(0, i + 1);
        assert(cur.drop_last() =~= s@.subrange(0, i as int));
        let c = s.get_char(i);
        if !(c == '/' && i > 0 && s.get_char(i - 1) == '/') {
            let one = s.substring_char(i, i + 1);
            assert(one@ =~= seq![c]);
            out.append(one);
            assert(out@ =~= collapse_seps(s@.subrange(0, i as int)).push(c));
        }
        i = i + 1;
    }
    assert(s@.subrange(0, n as int) =~= s@);
    out
}

/// Every `{}` of `expr` replaced by `stem`.
pub fn substitute_placeholder(expr: &str, stem: &str) -> (r: String)
    ensures
        r@ == substitute(expr@, stem@),
{
    let n = expr.unicode_len();
    let mut out = String::new();
    let mut i: usize = 0;
    assert(expr@.subrange(0, n as int) =~= expr@);
    while i < n
        invariant
            n == expr@.len(),
            i <= n,
            out@ + substitute(expr@.subrange(i as int, n as int), stem@) == substitute(expr@, stem@),
        decreases n - i,
    {
        let ghost rest = expr@.subrange(i as int, n as int);
        if i + 1 < n && expr.get_char(i) == '{' && expr.get_char(i + 1) == '}' {
            assert(rest.subrange(2, rest.len() as int) =~= expr@.subrange(i + 2, n as int));
            out.append(stem);
            assert(out@ + substitute(expr@.subrange(i + 2, n as int), stem@) =~= substitute(expr@, stem@));
            i = i + 2;
        } else {
            assert(rest.subrange(1, rest.len() as int) =~= expr@.subrange(i + 1, n as int));
            let one = expr.substring_char(i, i + 1);
            assert(one@ =~= seq![rest[0]]);
            out.append(one);
            assert(out@ + substitute(expr@.subrange(i + 1, n as int), stem@) =~= substitute(expr@, stem@));
            i = i + 1;
        }
    }
    assert(expr@.subrange(n as int, n as int) =~= Seq::<char>::empty());
    assert(out@ + Seq::<char>::empty() =~= out@);
    out
}

/// The last segment of `p` and the part before it, both taken after the
/// trailing separators of `p` are dropped.
fn split_last_segment(p: &str) -> (r: (&str, &str))
    ensures
        r.0@ == trim_trailing_seps(p@).subrange(0, last_index(trim_trailing_seps(p@), '/') + 1),
        r.1@ == last_segment(p@),
{
    let q = trim_trailing_seps_exec(p);
    let n = q.unicode_len();
    let start: usize = match last_index_exec(q, '/') {
        Some(k) => k + 1,
        None => 0,
    };
    (q.substring_char(0, start), q.substring_char(start, n))
}

/// The file name of `p` without its final extension.
pub fn file_stem(p: &str) -> (r: &str)
    ensures
        r@ == stem(p@),
{
    let (_, seg) = split_last_segment(p);
    let len = seg.unicode_len();
    if (len == 1 && seg.get_char(0) == '.') || (len == 2 && seg.get_char(0) == '.' && seg.get_char(1) == '.') {
        assert(seg@ =~= seq!['.'] || seg@ =~= seq!['.', '.']);
        return seg.substring_char(0, 0);
    }
    assert(!(seg@ =~= seq!['.']) && !(seg@ =~= seq!['.', '.']));
    match last_index_exec(seg, '.') {
        Some(k) => {
            if k == 0 {
                seg
            } else {
                seg.substring_char(0, k)
            }
        },
        None => seg,
    }
}

/// Build the destination path for a rename given a replacement expression.
/// Each `{}` is replaced by the source name without its extension (the
/// stem). An absolute result is used as it is; a relative one is placed next
/// to the source item.
pub fn compute_target_path(source: &str, replacement_expr: &str) -> (r: String)
    ensures
        r@ == build_target(source@, replacement_expr@),
{
    let built = substitute_placeholder(replacement_expr, file_stem(source));
    let blen = built.as_str().unicode_len();
    if blen > 0 && built.as_str().get_char(0) == '/' {
        return built;
    }
    let q = trim_trailing_seps_exec(source);
    let qlen = q.unicode_len();
    if qlen == 0 || (qlen == 1 && q.get_char(0) == '/') {
        assert(qlen == 1 ==> q@ =~= seq!['/']);
        assert(!has_parent(source@));
        return built;
    }
    assert(q@ != seq!['/']);
    let (before, _) = split_last_segment(source);
    let dir = trim_trailing_seps_exec(before);
    let dlen = dir.unicode_len();
    if dlen == 0 {
        built
    } else {
        let mut out = String::from_str(dir);
        if dir.get_char(dlen - 1) != '/' {
            out.append("/");
        }
        out.append(built.as_str());
        proof {
            reveal_strlit("/");
        }
        assert(out@ =~= join(parent(source@), built@));
        out
    }
}

} // verus!
