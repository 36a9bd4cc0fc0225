use vstd::prelude::*;
use crate::candidate::{Candidate, Source};
use crate::path::{build_target, collapse_seps, compute_target_path, trim_trailing_seps};

verus! {

/// What happens to one candidate.
#[derive(Debug)]
pub enum Decision {
    /// A directory matched by a glob: never renamed.
    SkipDirectory,
    /// The target is the candidate itself (the same path once trailing
    /// separators are dropped and runs of separators are cut to one).
    SkipUnchanged { target: String },
    /// Something already exists at the target: it is not overwritten.
    SkipCollision { target: String },
    /// Rename the candidate to the target.
    Rename { target: String },
}

/// The decision for a candidate at `path`, found as `kind`, under the
/// replacement expression `expr`, given whether the candidate is a directory
/// and whether its target exists.
pub open spec fn decision_of(
    path: Seq<char>,
    kind: Source,
    expr: Seq<char>,
    is_dir: bool,
    target_exists: bool,
    d: Decision,
) -> bool {
    let t = build_target(path, expr);
    if kind == Source::Glob && is_dir {
        d is SkipDirectory
    } else if collapse_seps(trim_trailing_seps(t)) == collapse_seps(trim_trailing_seps(path)) {
        d matches Decision::SkipUnchanged { target } && target@ == t
    } else if target_exists {
        d matches Decision::SkipCollision { target } && target@ == t
    } else {
        d matches Decision::Rename { target } && target@ == t
    }
}

/// An existing target is never renamed onto: whatever the candidate, when
/// its target exists the decision is not a rename.
pub proof fn existing_target_never_overwritten(
    path: Seq<char>,
    kind: Source,
    expr: Seq<char>,
    is_dir: bool,
    d: Decision,
)
    requires
        decision_of(path, kind, expr, is_dir, true, d),
    ensures
        !(d is Rename),
{
}

fn same_text(a: &str, b: &str) -> (r: bool)
    ensures
        r == (a@ == b@),
{
    let n = a.unicode_len();
    if n != b.unicode_len() {
        return false;
    }
    let mut i: usize = 0;
    while i < n
        invariant
            n == a@.len(),
            n == b@.len(),
            i <= n,
            forall|j: int| 0 <= j < i ==> a@[j] == b@[j],
        decreases n - i,
    {
        if a.get_char(i) != b.get_char(i) {
            return false;
        }
        i = i + 1;
    }
    assert(a@ =~= b@);
    true
}

/// Decide what to do with a candidate: directories found by a glob are
/// skipped, a target equal to the candidate is skipped, an existing target is
/// never overwritten, and anything else is renamed.
pub fn decide(c: &Candidate, replacement: &str, is_dir: bool, target_exists: bool) -> (d: Decision)
    ensures
        decision_of(c.path@, c.kind, replacement@, is_dir, target_exists, d),
{
    if is_dir {
        if let Source::Glob = c.kind {
            return Decision::SkipDirectory;
        }
    }
    let target = compute_target_path(c.path.as_str(), replacement);
    let trimmed = crate::path::trim_trailing_seps_exec(c.path.as_str());
    let a = crate::path::collapse_seps_exec(crate::path::trim_trailing_seps_exec(target.as_str()));
    let b = crate::path::collapse_seps_exec(trimmed);
    if same_text(a.as_str(), b.as_str()) {
        Decision::SkipUnchanged { target }
    } else if target_exists {
        Decision::SkipCollision { target }
    } else {
        Decision::Rename { target }
    }
}

/// The counts of a rename run.
#[derive(Debug)]
pub struct RunTotals {
    pub renamed: usize,
    pub skipped: usize,
}

impl RunTotals {
    /// Nothing renamed or skipped yet.
    pub fn new() -> (r: RunTotals)
        ensures
            r.renamed == 0,
            r.skipped == 0,
    {
        RunTotals { renamed: 0, skipped: 0 }
    }

    /// Account for one candidate's decision and, for a rename, whether the
    /// rename went through. Returns whether the run goes on: a failed rename
    /// ends it, leaving the counts as they were.
    pub fn record(&mut self, d: &Decision, rename_succeeded: bool) -> (go_on: bool)
        requires
            old(self).renamed < usize::MAX,
            old(self).skipped < usize::MAX,
        ensures
            d is Rename ==> go_on == rename_succeeded,
            d is Rename && rename_succeeded ==> final(self).renamed == old(self).renamed + 1
                && final(self).skipped == old(self).skipped,
            d is Rename && !rename_succeeded ==> *final(self) == *old(self),
            !(d is Rename) ==> go_on && final(self).skipped == old(self).skipped + 1
                && final(self).renamed == old(self).renamed,
    {
        match d {
            Decision::Rename { .. } => {
                if rename_succeeded {
                    self.renamed = self.renamed + 1;
                }
                rename_succeeded
            },
            _ => {
                self.skipped = self.skipped + 1;
                true
            },
        }
    }
}

} // verus!
