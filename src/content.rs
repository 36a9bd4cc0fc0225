use vstd::prelude::*;

verus! {

/// One entry of a content tree: a file's text, or a directory.
#[derive(Debug)]
pub enum ContentNode {
    File(String),
    Dir(ContentTree),
}

/// The collected content of a directory: named entries in the order added.
#[derive(Debug)]
pub struct ContentTree {
    pub entries: Vec<(String, ContentNode)>,
}

/// The texts of a sequence of strings.
pub open spec fn names(v: Seq<String>) -> Seq<Seq<char>> {
    v.map_values(|s: String| s@)
}

/// `i` is the first position of `es` whose name is `name`.
pub open spec fn first_named(es: Seq<(String, ContentNode)>, name: Seq<char>, i: int) -> bool {
    0 <= i < es.len() && es[i].0@ == name && forall|j: int| 0 <= j < i ==> (#[trigger] es[j]).0@ != name
}

/// Position of the first entry named `name`, or -1.
pub open spec fn find_entry(es: Seq<(String, ContentNode)>, name: Seq<char>) -> int {
    if exists|i: int| first_named(es, name, i) {
        choose|i: int| first_named(es, name, i)
    } else {
        -1
    }
}

/// What is at `path` in `t`: `None` when nothing is, `Some(None)` for a
/// directory, `Some(Some(text))` for a file with that text.
pub open spec fn node_at(t: ContentTree, path: Seq<Seq<char>>) -> Option<Option<Seq<char>>>
    decreases path.len(),
{
    if path.len() == 0 {
        None
    } else {
        let k = find_entry(t.entries@, path[0]);
        if k < 0 {
            None
        } else {
            match t.entries@[k].1 {
                ContentNode::File(c) => if path.len() == 1 { Some(Some(c@)) } else { None },
                ContentNode::Dir(sub) => if path.len() == 1 {
                    Some(None)
                } else {
                    node_at(sub, path.subrange(1, path.len() as int))
                },
            }
        }
    }
}

/// A file can be put at `path`: the path is not empty and no directory on
/// the way to it is already a file.
pub open spec fn insertable(t: ContentTree, path: Seq<Seq<char>>) -> bool
    decreases path.len(),
{
    if path.len() == 0 {
        false
    } else if path.len() == 1 {
        true
    } else {
        let k = find_entry(t.entries@, path[0]);
        if k < 0 {
            true
        } else {
            match t.entries@[k].1 {
                ContentNode::File(_) => false,
                ContentNode::Dir(sub) => insertable(sub, path.subrange(1, path.len() as int)),
            }
        }
    }
}

/// `pre` is a prefix of `p`.
pub open spec fn is_prefix(pre: Seq<Seq<char>>, p: Seq<Seq<char>>) -> bool {
    pre.len() <= p.len() && p.subrange(0, pre.len() as int) == pre
}

/// What an insertion of a file with text `c` at `path`, from `old` to `new`,
/// with outcome `r`, leaves at `p`. On success: the file is at `path`,
/// every shorter path on the way is a directory, nothing lies below `path`.
/// Any path that is neither on the way to `path` nor under it, and every path
/// when the insertion failed, holds what it held before.
pub open spec fn insert_post(
    old: ContentTree,
    new: ContentTree,
    path: Seq<Seq<char>>,
    c: Seq<char>,
    r: bool,
    p: Seq<Seq<char>>,
) -> bool {
    &&& (r && is_prefix(path, p) && p.len() == path.len() ==> node_at(new, p) == Some(Some(c)))
    &&& (r && is_prefix(p, path) && 0 < p.len() < path.len() ==> node_at(new, p) == Some(None::<Seq<char>>))
    &&& (r && is_prefix(path, p) && p.len() > path.len() ==> node_at(new, p) is None)
    &&& (!(r && (is_prefix(path, p) || is_prefix(p, path))) ==> node_at(new, p) == node_at(old, p))
}

proof fn lemma_find(es: Seq<(String, ContentNode)>, m: Seq<char>)
    ensures
        find_entry(es, m) >= 0 ==> first_named(es, m, find_entry(es, m)),
        find_entry(es, m) < 0 ==> forall|i: int| 0 <= i < es.len() ==> (#[trigger] es[i]).0@ != m,
{
    if find_entry(es, m) < 0 {
        assert forall|i: int| 0 <= i < es.len() implies (#[trigger] es[i]).0@ != m by {
            if es[i].0@ == m {
                assert(exists|f: int| first_named(es, m, f)) by {
                    lemma_first_exists(es, m, i);
                }
            }
        }
    }
}

proof fn lemma_first_exists(es: Seq<(String, ContentNode)>, m: Seq<char>, i: int)
    requires
        0 <= i < es.len(),
        es[i].0@ == m,
    ensures
        exists|f: int| first_named(es, m, f),
    decreases i,
{
    if exists|j: int| 0 <= j < i && (#[trigger] es[j]).0@ == m {
        let j = choose|j: int| 0 <= j < i && (#[trigger] es[j]).0@ == m;
        lemma_first_exists(es, m, j);
    } else {
        assert(first_named(es, m, i));
    }
}

proof fn lemma_first_unique(es: Seq<(String, ContentNode)>, m: Seq<char>, a: int, b: int)
    requires
        first_named(es, m, a),
        first_named(es, m, b),
    ensures
        a == b,
{
    if a < b {
        assert(es[a].0@ != m);
    } else if b < a {
        assert(es[b].0@ != m);
    }
}

/// Sequences with the same name at every position find names alike.
proof fn lemma_find_same_names(a: Seq<(String, ContentNode)>, b: Seq<(String, ContentNode)>, m: Seq<char>)
    requires
        a.len() == b.len(),
        forall|i: int| 0 <= i < a.len() ==> (#[trigger] a[i]).0@ == b[i].0@,
    ensures
        find_entry(a, m) == find_entry(b, m),
{
    lemma_find(a, m);
    lemma_find(b, m);
    let ka = find_entry(a, m);
    let kb = find_entry(b, m);
    if ka >= 0 {
        assert(first_named(b, m, ka)) by {
            assert forall|j: int| 0 <= j < ka implies (#[trigger] b[j]).0@ != m by {
                assert(a[j].0@ == b[j].0@);
            }
            assert(a[ka].0@ == b[ka].0@);
        }
        if kb >= 0 {
            lemma_first_unique(b, m, ka, kb);
        } else {
            assert(b[ka].0@ != m);
        }
    } else if kb >= 0 {
        assert(a[kb].0@ == b[kb].0@);
        assert(a[kb].0@ != m);
    }
}

proof fn lemma_find_push(es: Seq<(String, ContentNode)>, e: (String, ContentNode), m: Seq<char>)
    ensures
        find_entry(es, m) >= 0 ==> find_entry(es.push(e), m) == find_entry(es, m),
        find_entry(es, m) < 0 && e.0@ == m ==> find_entry(es.push(e), m) == es.len(),
        find_entry(es, m) < 0 && e.0@ != m ==> find_entry(es.push(e), m) < 0,
{
    let n = es.push(e);
    lemma_find(es, m);
    lemma_find(n, m);
    let k = find_entry(es, m);
    let kn = find_entry(n, m);
    if k >= 0 {
        assert(first_named(n, m, k)) by {
            assert forall|j: int| 0 <= j < k implies (#[trigger] n[j]).0@ != m by {
                assert(n[j] == es[j]);
            }
            assert(n[k] == es[k]);
        }
        if kn >= 0 {
            lemma_first_unique(n, m, k, kn);
        } else {
            assert(n[k] == es[k]);
        }
    } else {
        if e.0@ == m {
            assert(first_named(n, m, es.len() as int)) by {
                assert forall|j: int| 0 <= j < es.len() implies (#[trigger] n[j]).0@ != m by {
                    assert(n[j] == es[j]);
                }
            }
            if kn >= 0 {
                lemma_first_unique(n, m, es.len() as int, kn);
            }
        } else if kn >= 0 {
            if kn < es.len() {
                assert(n[kn] == es[kn]);
            }
        }
    }
}

proof fn lemma_prefix_step(path: Seq<Seq<char>>, p: Seq<Seq<char>>)
    requires
        path.len() > 1,
        p.len() > 1,
        path[0] == p[0],
    ensures
        is_prefix(path, p) <==> is_prefix(path.subrange(1, path.len() as int), p.subrange(1, p.len() as int)),
{
    let rest = path.subrange(1, path.len() as int);
    let pr = p.subrange(1, p.len() as int);
    if is_prefix(rest, pr) {
        assert forall|i: int| 0 <= i < path.len() implies p.subrange(0, path.len() as int)[i] == path[i] by {
            if i > 0 {
                assert(pr.subrange(0, rest.len() as int)[i - 1] == rest[i - 1]);
            }
        }
        assert(p.subrange(0, path.len() as int) =~= path);
    }
    if is_prefix(path, p) {
        assert forall|i: int| 0 <= i < rest.len() implies pr.subrange(0, rest.len() as int)[i] == rest[i] by {
            assert(p.subrange(0, path.len() as int)[i + 1] == path[i + 1]);
        }
        assert(pr.subrange(0, rest.len() as int) =~= rest);
    }
}

proof fn lemma_first_component(path: Seq<Seq<char>>, p: Seq<Seq<char>>)
    requires
        path.len() > 0,
        p.len() > 0,
    ensures
        is_prefix(path, p) ==> p[0] == path[0],
        is_prefix(p, path) ==> p[0] == path[0],
{
    if is_prefix(path, p) {
        assert(p.subrange(0, path.len() as int)[0] == path[0]);
    }
    if is_prefix(p, path) {
        assert(path.subrange(0, p.len() as int)[0] == p[0]);
    }
}

proof fn lemma_empty_tree(t: ContentTree, p: Seq<Seq<char>>)
    requires
        t.entries@.len() == 0,
    ensures
        node_at(t, p) is None,
        p.len() > 0 ==> insertable(t, p),
{
    if p.len() > 0 {
        lemma_find(t.entries@, p[0]);
    }
}

impl ContentTree {
    /// A tree with no entries.
    pub fn new() -> (r: ContentTree)
        ensures
            r.entries@.len() == 0,
            forall|p: Seq<Seq<char>>| node_at(r, p) is None,
    {
        let r = ContentTree { entries: Vec::new() };
        proof {
            assert forall|p: Seq<Seq<char>>| node_at(r, p) is None by {
                lemma_empty_tree(r, p);
            }
        }
        r
    }

    fn find(&self, name: &String) -> (r: Option<usize>)
        ensures
            match r {
                Some(k) => find_entry(self.entries@, name@) == k,
                None => find_entry(self.entries@, name@) < 0,
            },
    {
        let mut i: usize = 0;
        while i < self.entries.len()
            invariant
                i <= self.entries@.len(),
                forall|j: int| 0 <= j < i ==> (#[trigger] self.entries@[j]).0@ != name@,
            decreases self.entries@.len() - i,
        {
            if self.entries[i].0 == *name {
                proof {
                    lemma_find(self.entries@, name@);
                    assert(first_named(self.entries@, name@, i as int));
                    if find_entry(self.entries@, name@) >= 0 {
                        lemma_first_unique(self.entries@, name@, i as int, find_entry(self.entries@, name@));
                    }
                }
                return Some(i);
            }
            i = i + 1;
        }
        proof {
            lemma_find(self.entries@, name@);
            if find_entry(self.entries@, name@) >= 0 {
                let k = find_entry(self.entries@, name@);
                assert(self.entries@[k].0@ != name@);
            }
        }
        None
    }

    /// Put a file with text `content` at `components[from..]`, making the
    /// directories on the way that are missing. This fails, changing nothing,
    /// when one of those directories is already a file. A file or directory
    /// already at the path itself is replaced.
    fn insert_at(&mut self, components: &Vec<String>, from: usize, content: String) -> (r: bool)
        requires
            from < components@.len(),
        ensures
            r == insertable(*old(self), names(components@).subrange(from as int, components@.len() as int)),
            forall|p: Seq<Seq<char>>| #[trigger] insert_post(
                *old(self),
                *final(self),
                names(components@).subrange(from as int, components@.len() as int),
                content@,
                r,
                p,
            ),
        decreases components@.len() - from,
    {
        let ghost path = names(components@).subrange(from as int, components@.len() as int);
        let ghost old_es = self.entries@;
        let ghost old_tree = *self;
        let ghost c = content@;
        let name = &components[from];
        assert(path[0] == name@);
        let found = self.find(name);
        proof {
            lemma_find(old_es, name@);
        }
        if from == components.len() - 1 {
            let node = (name.clone(), ContentNode::File(content));
            match found {
                Some(k) => {
                    let _ = self.entries.remove(k);
                    self.entries.insert(k, node);
                    assert(self.entries@ =~= old_es.update(k as int, node));
                    proof {
                        assert forall|i: int| 0 <= i < old_es.len() implies (#[trigger] old_es[i]).0@ == self.entries@[i].0@ by {}
                        lemma_find_same_names(old_es, self.entries@, name@);
                    }
                },
                None => {
                    self.entries.push(node);
                    proof {
                        lemma_find_push(old_es, node, name@);
                    }
                },
            }
            proof {
                assert forall|p: Seq<Seq<char>>| #[trigger] insert_post(old_tree, *self, path, c, true, p) by {
                    if p.len() > 0 {
                        lemma_first_component(path, p);
                        if p[0] == name@ {
                            assert(p.subrange(0, 1) =~= path);
                        } else {
                            self.lemma_other_name_kept(old_tree, name@, p);
                        }
                    }
                }
            }
            true
        } else {
            let ghost rest = names(components@).subrange(from + 1, components@.len() as int);
            assert(rest =~= path.subrange(1, path.len() as int));
            match found {
                None => {
                    let mut sub = ContentTree::new();
                    let ghost empty = sub;
                    proof {
                        lemma_empty_tree(sub, rest);
                    }
                    let ok = sub.insert_at(components, from + 1, content);
                    let ghost new_sub = sub;
                    let node = (name.clone(), ContentNode::Dir(sub));
                    self.entries.push(node);
                    assert(self.entries@[old_es.len() as int] == node);
                    proof {
                        lemma_find_push(old_es, node, name@);
                        assert forall|p: Seq<Seq<char>>| #[trigger] insert_post(old_tree, *self, path, c, true, p) by {
                            if p.len() > 0 {
                                lemma_first_component(path, p);
                                if p[0] == name@ {
                                    if p.len() == 1 {
                                        assert(path.subrange(0, 1) =~= p);
                                    } else {
                                        let pr = p.subrange(1, p.len() as int);
                                        lemma_prefix_step(path, p);
                                        lemma_prefix_step(p, path);
                                        lemma_empty_tree(empty, pr);
                                        assert(insert_post(empty, new_sub, rest, c, ok, pr));
                                        assert(node_at(*self, p) == node_at(new_sub, pr));
                                    }
                                } else {
                                    self.lemma_other_name_kept(old_tree, name@, p);
                                }
                            }
                        }
                    }
                    true
                },
                Some(k) => {
                    let (nm, node) = self.entries.remove(k);
                    match node {
                        ContentNode::Dir(mut sub) => {
                            let ghost old_sub = sub;
                            let ok = sub.insert_at(components, from + 1, content);
                            let ghost new_sub = sub;
                            let new_node = (nm, ContentNode::Dir(sub));
                            self.entries.insert(k, new_node);
                            assert(self.entries@ =~= old_es.update(k as int, new_node));
                            proof {
                                assert forall|i: int| 0 <= i < old_es.len() implies (#[trigger] old_es[i]).0@ == self.entries@[i].0@ by {}
                                lemma_find_same_names(old_es, self.entries@, name@);
                                assert forall|p: Seq<Seq<char>>| #[trigger] insert_post(old_tree, *self, path, c, ok, p) by {
                                    if p.len() > 0 {
                                        lemma_first_component(path, p);
                                        if p[0] == name@ {
                                            if p.len() == 1 {
                                                assert(path.subrange(0, 1) =~= p);
                                            } else {
                                                let pr = p.subrange(1, p.len() as int);
                                                lemma_prefix_step(path, p);
                                                lemma_prefix_step(p, path);
                                                assert(insert_post(old_sub, new_sub, rest, c, ok, pr));
                                                assert(node_at(*self, p) == node_at(new_sub, pr));
                                                assert(node_at(old_tree, p) == node_at(old_sub, pr));
                                            }
                                        } else {
                                            self.lemma_other_name_kept(old_tree, name@, p);
                                        }
                                    }
                                }
                            }
                            ok
                        },
                        ContentNode::File(f) => {
                            let back = (nm, ContentNode::File(f));
                            self.entries.insert(k, back);
                            assert(self.entries@ =~= old_es);
                            proof {
                                assert forall|p: Seq<Seq<char>>| #[trigger] insert_post(old_tree, *self, path, c, false, p) by {
                                    if p.len() > 0 {
                                        lemma_find_same_names(old_es, self.entries@, p[0]);
                                    }
                                }
                            }
                            false
                        },
                    }
                },
            }
        }
    }

    /// Where `self` differs from `old` only in the entry named `name` (kept at
    /// its place, or added at the end), a path starting with another name
    /// finds the same thing in both.
    proof fn lemma_other_name_kept(&self, old: ContentTree, name: Seq<char>, p: Seq<Seq<char>>)
        requires
            p.len() > 0,
            p[0] != name,
            ({
                let a = old.entries@;
                let b = self.entries@;
                (b.len() == a.len() || b.len() == a.len() + 1)
                && (b.len() == a.len() + 1 ==> b[a.len() as int].0@ == name
                    && forall|i: int| 0 <= i < a.len() ==> b[i] == a[i])
                && forall|i: int| 0 <= i < a.len() ==> (#[trigger] b[i]).0@ == a[i].0@ && (a[i].0@ != name ==> b[i] == a[i])
            }),
        ensures
            node_at(*self, p) == node_at(old, p),
    {
        let a = old.entries@;
        let b = self.entries@;
        lemma_find(a, p[0]);
        lemma_find(b, p[0]);
        if b.len() == a.len() {
            lemma_find_same_names(a, b, p[0]);
        } else {
            assert(a =~= b.drop_last());
            assert(b =~= a.push(b.last()));
            lemma_find_push(a, b.last(), p[0]);
        }
        let k = find_entry(a, p[0]);
        if k >= 0 {
            assert(b[k] == a[k]);
        }
    }

    /// Put a file with text `content` at the path made of `components`,
    /// making the directories on the way that are missing.
    ///
    /// Returns false, changing nothing, when the path is empty or a directory
    /// on the way is already a file. Refusing such a path, rather than
    /// failing hard, is intended: a directory walk never produces one.
    ///
    /// On success the file is at the path, every shorter path on the way is a
    /// directory, and nothing lies below the path. Every other path holds
    /// what it held before, so no entry off the path is added, dropped or
    /// changed, and the only new directories lie on the path.
    pub fn insert_file(&mut self, components: &Vec<String>, content: String) -> (r: bool)
        ensures
            r == insertable(*old(self), names(components@)),
            r ==> node_at(*final(self), names(components@)) == Some(Some(content@)),
            forall|p: Seq<Seq<char>>|
                r && is_prefix(p, names(components@)) && 0 < p.len() < components@.len()
                ==> #[trigger] node_at(*final(self), p) == Some(None::<Seq<char>>),
            forall|p: Seq<Seq<char>>|
                r && is_prefix(names(components@), p) && p.len() > components@.len()
                ==> #[trigger] node_at(*final(self), p) is None,
            forall|p: Seq<Seq<char>>|
                !(r && (is_prefix(names(components@), p) || is_prefix(p, names(components@))))
                ==> #[trigger] node_at(*final(self), p) == node_at(*old(self), p),
    {
        if components.len() == 0 {
            return false;
        }
        let ghost c = content@;
        let ghost old_tree = *self;
        let r = self.insert_at(components, 0, content);
        proof {
            let path = names(components@);
            assert(path.subrange(0, components@.len() as int) =~= path);
            assert(path.len() == components@.len());
            assert(insert_post(old_tree, *self, path, c, r, path));
            assert(path.subrange(0, path.len() as int) =~= path);
            assert forall|p: Seq<Seq<char>>| #[trigger] node_at(*self, p) == node_at(*self, p) implies insert_post(old_tree, *self, path, c, r, p) by {}
        }
        r
    }
}

} // verus!
