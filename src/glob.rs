use vstd::prelude::*;
use crate::candidate::{Candidate, Source};
use crate::pattern::{has_meta, infer_search_root, is_glob_like, match_subject_of, search_root};

verus! {

/// globset's compiled set of patterns, carried through opaquely.
#[verifier::external_type_specification]
#[verifier::external_body]
pub struct ExGlobSet(globset::GlobSet);

/// Whether globset accepts the syntax of a pattern (default options).
pub uninterp spec fn glob_is_valid(pattern: Seq<char>) -> bool;

/// Whether globset can build the matcher of a valid pattern (its regex stays
/// within globset's size and nesting limits).
pub uninterp spec fn glob_compiles(pattern: Seq<char>) -> bool;

/// Whether the matcher globset compiles from a pattern accepts a path.
pub uninterp spec fn glob_accepts(pattern: Seq<char>, path: Seq<char>) -> bool;

/// Relies on globset::Glob::new, which parses `pattern` with default options
/// and fails exactly when its syntax is invalid, and on globset::GlobSet::new,
/// which builds the matcher for that one parsed pattern and reports an error
/// instead of panicking when the pattern's regex cannot be built.
#[verifier::external_body]
fn compile_set(pattern: &str) -> (r: Option<globset::GlobSet>)
    ensures
        r is Some <==> (glob_is_valid(pattern@) && glob_compiles(pattern@)),
{
    globset::Glob::new(pattern).ok().and_then(|g| globset::GlobSet::new([g]).ok())
}

/// A pattern that is not valid glob syntax, or whose matcher cannot be built.
#[derive(Debug)]
pub struct PatternError {
    pub pattern: String,
}

/// A compiled glob pattern together with its text.
#[derive(Debug)]
pub struct GlobFilter {
    pattern: String,
    set: globset::GlobSet,
}

impl GlobFilter {
    /// The text of the pattern.
    pub closed spec fn pattern_view(&self) -> Seq<char> {
        self.pattern@
    }

    /// Compile `pattern`; fails exactly when its syntax is invalid or its
    /// matcher cannot be built.
    pub fn new(pattern: &str) -> (r: Result<GlobFilter, PatternError>)
        ensures
            r is Ok <==> glob_is_valid(pattern@) && glob_compiles(pattern@),
            r matches Ok(f) ==> f.pattern_view() == pattern@,
            r matches Err(e) ==> e.pattern@ == pattern@,
    {
        match compile_set(pattern) {
            Some(set) => Ok(GlobFilter { pattern: String::from_str(pattern), set }),
            None => Err(PatternError { pattern: String::from_str(pattern) }),
        }
    }

    /// Relies on globset::GlobSet::is_match: the set holds only the pattern
    /// parsed from `self.pattern` (the only way a filter is made), so it
    /// answers whether `path` matches that pattern.
    #[verifier::external_body]
    fn accepts(&self, path: &str) -> (r: bool)
        ensures
            r == glob_accepts(self.pattern_view(), path@),
    {
        self.set.is_match(path)
    }
}

/// A file system entry met while searching for a glob's matches, with what
/// the file system said of it.
#[derive(Debug)]
pub struct FoundEntry {
    /// The path as the search produced it.
    pub path: String,
    /// Whether the entry is a regular file.
    pub is_file: bool,
    /// Its canonical path, when that could be had.
    pub canonical: Option<String>,
    /// Its path relative to the current directory, when it has one.
    pub relative: Option<String>,
}

pub open spec fn opt_view(o: Option<String>) -> Option<Seq<char>> {
    match o {
        Some(s) => Some(s@),
        None => None,
    }
}

/// Whether a found entry becomes a candidate for `pattern`: it must be a file,
/// and the pattern must accept the text it is matched against.
pub open spec fn entry_selected(pattern: Seq<char>, e: FoundEntry) -> bool {
    e.is_file && glob_accepts(
        pattern,
        match_subject_of(pattern, e.path@, opt_view(e.canonical), opt_view(e.relative)),
    )
}

/// The paths of the entries of `s` that `pattern` selects, in order.
pub open spec fn selected_paths(pattern: Seq<char>, s: Seq<FoundEntry>) -> Seq<Seq<char>>
    decreases s.len(),
{
    if s.len() == 0 {
        Seq::empty()
    } else {
        let prev = selected_paths(pattern, s.drop_last());
        if entry_selected(pattern, s.last()) {
            prev.push(s.last().path@)
        } else {
            prev
        }
    }
}

/// Some entry of `s` at `path` is a regular file.
pub open spec fn is_file_in(s: Seq<FoundEntry>, path: Seq<char>) -> bool {
    exists|j: int| 0 <= j < s.len() && (#[trigger] s[j]).is_file && s[j].path@ == path
}

/// A glob never selects a directory: every path it selects is that of an
/// entry that is a regular file.
pub proof fn glob_selects_only_files(pattern: Seq<char>, s: Seq<FoundEntry>)
    ensures
        forall|i: int| 0 <= i < selected_paths(pattern, s).len() ==> is_file_in(s, #[trigger] selected_paths(pattern, s)[i]),
    decreases s.len(),
{
    if s.len() > 0 {
        let p = s.drop_last();
        glob_selects_only_files(pattern, p);
        let sp = selected_paths(pattern, p);
        let all = selected_paths(pattern, s);
        assert forall|i: int| 0 <= i < all.len() implies is_file_in(s, #[trigger] all[i]) by {
            if i < sp.len() {
                assert(all[i] == sp[i]);
                assert(is_file_in(p, sp[i]));
                let j = choose|j: int| 0 <= j < p.len() && (#[trigger] p[j]).is_file && p[j].path@ == sp[i];
                assert(s[j] == p[j]);
            } else {
                let j = s.len() - 1;
                assert(entry_selected(pattern, s.last()));
                assert(s[j] == s.last());
                assert(s[j].is_file && s[j].path@ == all[i]);
            }
        }
    }
}

/// The entries of `found` that are files and that the filter's pattern
/// accepts, as glob candidates, in the order found.
pub fn select_glob_matches(filter: &GlobFilter, found: &Vec<FoundEntry>) -> (r: Vec<Candidate>)
    ensures
        r@.len() == selected_paths(filter.pattern_view(), found@).len(),
        forall|i: int| 0 <= i < r@.len() ==> (#[trigger] r@[i]).path@ == selected_paths(filter.pattern_view(), found@)[i]
            && r@[i].kind == Source::Glob,
{
    let ghost pat = filter.pattern_view();
    let mut out: Vec<Candidate> = Vec::new();
    let n = found.len();
    let mut i: usize = 0;
    while i < n
        invariant
            n == found@.len(),
            i <= n,
            pat == filter.pattern_view(),
            out@.len() == selected_paths(pat, found@.subrange(0, i as int)).len(),
            forall|k: int| 0 <= k < out@.len() ==> (#[trigger] out@[k]).path@ == selected_paths(pat, found@.subrange(0, i as int))[k]
                && out@[k].kind == Source::Glob,
        decreases n - i,
    {
        assert(found@.subrange(0, i + 1).drop_last() =~= found@.subrange(0, i as int));
        let e = &found[i];
        if e.is_file {
            let canonical = match &e.canonical {
                Some(c) => Some(c.clone()),
                None => None,
            };
            let relative = match &e.relative {
                Some(c) => Some(c.clone()),
                None => None,
            };
            let subject = crate::pattern::match_subject(filter.pattern.as_str(), e.path.clone(), canonical, relative);
            if filter.accepts(subject.as_str()) {
                out.push(Candidate::glob(e.path.clone()));
            }
        }
        i = i + 1;
    }
    assert(found@.subrange(0, n as int) =~= found@);
    out
}

/// How one user pattern is searched for.
#[derive(Debug)]
pub enum PatternPlan {
    /// A literal path: it is a candidate if it exists.
    Explicit { path: String },
    /// A glob: the files under `root` that `filter` accepts are candidates.
    Glob { filter: GlobFilter, root: String },
}

/// Classify a pattern and prepare its search: a literal becomes an explicit
/// path; a glob is compiled (invalid syntax is an error) and its search root
/// inferred. A glob whose matcher cannot be built is an error too.
pub fn plan_pattern(raw: &str) -> (r: Result<PatternPlan, PatternError>)
    ensures
        !has_meta(raw@) ==> (r matches Ok(PatternPlan::Explicit { path }) && path@ == raw@),
        has_meta(raw@) ==> (r is Ok <==> glob_is_valid(raw@) && glob_compiles(raw@)),
        has_meta(raw@) && r is Ok ==> (r matches Ok(PatternPlan::Glob { filter, root })
            && filter.pattern_view() == raw@ && root@ == search_root(raw@)),
        r matches Err(e) ==> e.pattern@ == raw@,
{
    if is_glob_like(raw) {
        let filter = GlobFilter::new(raw)?;
        let root = infer_search_root(raw);
        Ok(PatternPlan::Glob { filter, root })
    } else {
        Ok(PatternPlan::Explicit { path: String::from_str(raw) })
    }
}

impl PatternPlan {
    /// The path whose existence decides what becomes of the pattern: the
    /// explicit path itself, or the glob's search root.
    pub fn probe_path(&self) -> (r: &str)
        ensures
            self matches PatternPlan::Explicit { path } ==> r@ == path@,
            self matches PatternPlan::Glob { root, .. } ==> r@ == root@,
    {
        match self {
            PatternPlan::Explicit { path } => path.as_str(),
            PatternPlan::Glob { root, .. } => root.as_str(),
        }
    }
}

/// What becomes of one pattern once it is planned and its probe path checked.
#[derive(Debug)]
pub enum PatternStep {
    /// An invalid glob: fatal, the run ends before any rename.
    Abort(PatternError),
    /// An explicit path that exists: it is a candidate.
    Add(Candidate),
    /// An explicit path that does not exist: warn and go on.
    MissingPath { path: String },
    /// A glob whose search root does not exist: warn and go on.
    MissingRoot { root: String },
    /// Search `root` for the files that `filter` accepts.
    Search { filter: GlobFilter, root: String },
}

/// The policy for one pattern: an invalid glob is fatal; a missing explicit
/// path or glob search root only warns; otherwise the path is a candidate or
/// the root is searched. `present` answers whether the plan's probe path
/// exists (it is not read for an invalid glob).
pub fn pattern_step(plan: Result<PatternPlan, PatternError>, present: bool) -> (r: PatternStep)
    ensures
        r is Abort <==> plan is Err,
        plan matches Err(e) ==> (r == PatternStep::Abort(e)),
        plan matches Ok(PatternPlan::Explicit { path }) ==> (present ==> (r matches PatternStep::Add(c)
            && c.path == path && c.kind == Source::Explicit)),
        plan matches Ok(PatternPlan::Explicit { path }) ==> (!present ==> (r == PatternStep::MissingPath { path: path })),
        plan matches Ok(PatternPlan::Glob { filter, root }) ==> (present ==> (r == PatternStep::Search {
            filter: filter,
            root: root,
        })),
        plan matches Ok(PatternPlan::Glob { filter, root }) ==> (!present ==> (r == PatternStep::MissingRoot {
            root: root,
        })),
{
    match plan {
        Err(e) => PatternStep::Abort(e),
        Ok(PatternPlan::Explicit { path }) => if present {
            PatternStep::Add(Candidate::explicit(path))
        } else {
            PatternStep::MissingPath { path }
        },
        Ok(PatternPlan::Glob { filter, root }) => if present {
            PatternStep::Search { filter, root }
        } else {
            PatternStep::MissingRoot { root }
        },
    }
}

} // verus!
