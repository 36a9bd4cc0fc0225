use vstd::prelude::*;

verus! {

/// How a candidate was found.
#[derive(Clone, Copy, PartialEq, Eq, Debug)]
pub enum Source {
    /// Named by the user as a path.
    Explicit,
    /// Matched by a glob pattern.
    Glob,
}

/// A file system entry slated for renaming, with how it was found.
#[derive(Debug)]
pub struct Candidate {
    pub path: String,
    pub kind: Source,
}

impl Candidate {
    /// A candidate named explicitly.
    pub fn explicit(path: String) -> (r: Candidate)
        ensures
            r.path == path,
            r.kind == Source::Explicit,
    {
        Candidate { path, kind: Source::Explicit }
    }

    /// A candidate matched by a glob.
    pub fn glob(path: String) -> (r: Candidate)
        ensures
            r.path == path,
            r.kind == Source::Glob,
    {
        Candidate { path, kind: Source::Glob }
    }

    /// A copy of this candidate.
    pub fn copy(&self) -> (r: Candidate)
        ensures
            r == *self,
    {
        Candidate { path: self.path.clone(), kind: self.kind }
    }
}

/// A candidate paired with the key it is told apart by (its canonical path).
pub type Keyed = (Candidate, String);

/// Some entry before position `i` has the same key as the entry at `i`.
pub open spec fn key_seen_before(s: Seq<Keyed>, i: int) -> bool {
    exists|j: int| 0 <= j < i && (#[trigger] s[j]).1@ == s[i].1@
}

/// `s` with every entry whose key came earlier removed, order kept.
pub open spec fn dedup_keyed(s: Seq<Keyed>) -> Seq<Keyed>
    decreases s.len(),
{
    if s.len() == 0 {
        s
    } else {
        let prev = dedup_keyed(s.drop_last());
        if key_seen_before(s, s.len() - 1) {
            prev
        } else {
            prev.push(s.last())
        }
    }
}

/// Some entry of `s` has the key `k`.
pub open spec fn has_key(s: Seq<Keyed>, k: Seq<char>) -> bool {
    exists|j: int| 0 <= j < s.len() && (#[trigger] s[j]).1@ == k
}

/// No two entries of `s` share a key.
pub open spec fn keys_distinct(s: Seq<Keyed>) -> bool {
    forall|i: int, j: int| 0 <= i < j < s.len() ==> (#[trigger] s[i]).1@ != (#[trigger] s[j]).1@
}

proof fn lemma_dedup_has_key(s: Seq<Keyed>, k: Seq<char>)
    ensures
        has_key(dedup_keyed(s), k) <==> has_key(s, k),
    decreases s.len(),
{
    if s.len() > 0 {
        let p = s.drop_last();
        lemma_dedup_has_key(p, k);
        let d = dedup_keyed(s);
        let dp = dedup_keyed(p);
        assert(has_key(dp, k) <==> has_key(p, k));
        if has_key(s, k) {
            let j = choose|j: int| 0 <= j < s.len() && (#[trigger] s[j]).1@ == k;
            if j < s.len() - 1 {
                assert(p[j] == s[j]);
                assert(has_key(p, k));
                let jj = choose|jj: int| 0 <= jj < dp.len() && (#[trigger] dp[jj]).1@ == k;
                assert(d[jj] == dp[jj]);
            } else if key_seen_before(s, s.len() - 1) {
                let i = choose|i: int| 0 <= i < s.len() - 1 && (#[trigger] s[i]).1@ == s[s.len() - 1].1@;
                assert(p[i] == s[i]);
                assert(has_key(p, k));
                let jj = choose|jj: int| 0 <= jj < dp.len() && (#[trigger] dp[jj]).1@ == k;
                assert(d[jj] == dp[jj]);
            } else {
                assert(d[d.len() - 1] == s.last());
            }
        }
        if has_key(d, k) {
            let j = choose|j: int| 0 <= j < d.len() && (#[trigger] d[j]).1@ == k;
            if j < dp.len() {
                assert(dp[j] == d[j]);
                assert(has_key(dp, k));
                let jj = choose|jj: int| 0 <= jj < p.len() && (#[trigger] p[jj]).1@ == k;
                assert(s[jj] == p[jj]);
            } else {
                assert(d[j] == s[s.len() - 1]);
            }
        }
    }
}

proof fn lemma_dedup_distinct(s: Seq<Keyed>)
    ensures
        keys_distinct(dedup_keyed(s)),
    decreases s.len(),
{
    if s.len() > 0 {
        let p = s.drop_last();
        lemma_dedup_distinct(p);
        let d = dedup_keyed(s);
        let dp = dedup_keyed(p);
        if !key_seen_before(s, s.len() - 1) {
            assert forall|i: int, j: int| 0 <= i < j < d.len() implies (#[trigger] d[i]).1@ != (#[trigger] d[j]).1@ by {
                if j == d.len() - 1 {
                    assert(d[i] == dp[i]);
                    if d[i].1@ == d[j].1@ {
                        lemma_dedup_has_key(p, s.last().1@);
                        assert(has_key(dp, s.last().1@));
                        let jj = choose|jj: int| 0 <= jj < p.len() && (#[trigger] p[jj]).1@ == s.last().1@;
                        assert(s[jj] == p[jj]);
                    }
                } else {
                    assert(d[i] == dp[i] && d[j] == dp[j]);
                }
            }
        }
    }
}

proof fn lemma_dedup_distinct_is_identity(s: Seq<Keyed>)
    requires
        keys_distinct(s),
    ensures
        dedup_keyed(s) == s,
    decreases s.len(),
{
    if s.len() > 0 {
        let p = s.drop_last();
        assert(keys_distinct(p)) by {
            assert forall|i: int, j: int| 0 <= i < j < p.len() implies (#[trigger] p[i]).1@ != (#[trigger] p[j]).1@ by {
                assert(p[i] == s[i] && p[j] == s[j]);
            }
        }
        lemma_dedup_distinct_is_identity(p);
        if key_seen_before(s, s.len() - 1) {
            let i = choose|i: int| 0 <= i < s.len() - 1 && (#[trigger] s[i]).1@ == s[s.len() - 1].1@;
            assert(s[i].1@ != s[s.len() - 1].1@);
        }
        assert(p.push(s.last()) =~= s);
    }
}

/// Removing duplicates twice gives what removing them once gave: the result
/// of the deduplicator is a fixed point of it.
pub proof fn dedup_is_idempotent(s: Seq<Keyed>)
    ensures
        dedup_keyed(dedup_keyed(s)) == dedup_keyed(s),
{
    lemma_dedup_distinct(s);
    lemma_dedup_distinct_is_identity(dedup_keyed(s));
}

/// Keep the first candidate of each key and drop later ones with the same
/// key, in the order given.
pub fn dedup_by_key(items: &Vec<Keyed>) -> (r: Vec<Keyed>)
    ensures
        r@ == dedup_keyed(items@),
{
    let mut out: Vec<Keyed> = Vec::new();
    let n = items.len();
    let mut i: usize = 0;
    while i < n
        invariant
            n == items@.len(),
            i <= n,
            out@ == dedup_keyed(items@.subrange(0, i as int)),
        decreases n - i,
    {
        let ghost pre = items@.subrange(0, i as int);
        let ghost cur = items@.subrange(0, i + 1);
        proof {
            assert(cur.drop_last() =~= pre);
        }
        let key = &items[i].1;
        let mut seen = false;
        let mut j: usize = 0;
        while j < out.len()
            invariant
                0 <= j <= out@.len(),
                out@ == dedup_keyed(pre),
                key@ == items@[i as int].1@,
                seen ==> has_key(out@, key@),
                !seen ==> forall|t: int| 0 <= t < j ==> (#[trigger] out@[t]).1@ != key@,
            decreases out@.len() - j,
        {
            if out[j].1 == *key {
                seen = true;
            }
            j = j + 1;
        }
        proof {
            lemma_dedup_has_key(pre, key@);
        }
        assert(has_key(pre, key@) <==> key_seen_before(cur, i as int)) by {
            if has_key(pre, key@) {
                let t = choose|t: int| 0 <= t < pre.len() && (#[trigger] pre[t]).1@ == key@;
                assert(cur[t] == pre[t]);
            }
            if key_seen_before(cur, i as int) {
                let t = choose|t: int| 0 <= t < i && (#[trigger] cur[t]).1@ == cur[i as int].1@;
                assert(cur[t] == pre[t]);
            }
        }
        if !seen {
            out.push((items[i].0.copy(), items[i].1.clone()));
        }
        i = i + 1;
    }
    assert(items@.subrange(0, n as int) =~= items@);
    out
}

} // verus!
