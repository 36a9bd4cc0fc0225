use vstd::prelude::*;

verus! {

/// Represents the status of a Git repository.
#[derive(Clone, Copy, PartialEq, Eq, Debug)]
pub enum RepoStatus {
    Uncommitted,
    NoUpstream,
    NotPushed,
    Clean,
}

/// One git query made on a directory while its status is worked out.
#[derive(Clone, Copy, PartialEq, Eq, Debug)]
pub enum Probe {
    /// `git rev-parse --is-inside-work-tree`: does it succeed?
    WorkTree,
    /// `git status --porcelain`: does it print anything?
    Changes,
    /// `git rev-parse --abbrev-ref --symbolic-full-name @{u}`: does it succeed?
    Upstream,
    /// `git cherry -v`: does it print anything?
    Unpushed,
}

/// What follows a query: another query, or the status (none for a directory
/// that is not a repository).
#[derive(Clone, Copy, PartialEq, Eq, Debug)]
pub enum ProbeStep {
    Run(Probe),
    Done(Option<RepoStatus>),
}

/// The step after `p` answered with `succeeded` and printed nothing
/// (`output_empty`) or something.
pub open spec fn probe_step_of(p: Probe, succeeded: bool, output_empty: bool) -> ProbeStep {
    match p {
        Probe::WorkTree => if succeeded { ProbeStep::Run(Probe::Changes) } else { ProbeStep::Done(None) },
        Probe::Changes => if output_empty {
            ProbeStep::Run(Probe::Upstream)
        } else {
            ProbeStep::Done(Some(RepoStatus::Uncommitted))
        },
        Probe::Upstream => if succeeded {
            ProbeStep::Run(Probe::Unpushed)
        } else {
            ProbeStep::Done(Some(RepoStatus::NoUpstream))
        },
        Probe::Unpushed => if output_empty {
            ProbeStep::Done(Some(RepoStatus::Clean))
        } else {
            ProbeStep::Done(Some(RepoStatus::NotPushed))
        },
    }
}

/// The status of a directory from the answers of all four queries, the
/// earliest failing check deciding.
pub open spec fn status_of(
    work_tree: bool,
    changes_empty: bool,
    upstream: bool,
    unpushed_empty: bool,
) -> Option<RepoStatus> {
    if !work_tree {
        None
    } else if !changes_empty {
        Some(RepoStatus::Uncommitted)
    } else if !upstream {
        Some(RepoStatus::NoUpstream)
    } else if !unpushed_empty {
        Some(RepoStatus::NotPushed)
    } else {
        Some(RepoStatus::Clean)
    }
}

/// Asking the queries in turn, from the first, and stopping at the first
/// `Done`, gives the status that `status_of` assigns to the answers: `w` and
/// `u` say whether the work-tree and upstream queries succeeded, `c` and `p`
/// whether the changes and unpushed queries printed nothing; `x` and `y`
/// stand for the half of each answer that its query does not look at.
pub proof fn probes_decide_status(w: bool, c: bool, u: bool, p: bool, x: bool, y: bool)
    ensures
        ({
            let s1 = probe_step_of(first_probe_spec(), w, x);
            match s1 {
                ProbeStep::Done(st) => st == status_of(w, c, u, p),
                ProbeStep::Run(q1) => {
                    let s2 = probe_step_of(q1, y, c);
                    match s2 {
                        ProbeStep::Done(st) => st == status_of(w, c, u, p),
                        ProbeStep::Run(q2) => {
                            let s3 = probe_step_of(q2, u, y);
                            match s3 {
                                ProbeStep::Done(st) => st == status_of(w, c, u, p),
                                ProbeStep::Run(q3) => probe_step_of(q3, x, p) == ProbeStep::Done(status_of(w, c, u, p)),
                            }
                        },
                    }
                },
            }
        }),
{
}

pub open spec fn first_probe_spec() -> Probe {
    Probe::WorkTree
}

/// The first query asked of a directory.
pub fn first_probe() -> (r: Probe)
    ensures
        r == first_probe_spec(),
{
    Probe::WorkTree
}

/// The step after query `p` answered.
pub fn after_probe(p: Probe, succeeded: bool, output_empty: bool) -> (r: ProbeStep)
    ensures
        r == probe_step_of(p, succeeded, output_empty),
{
    match p {
        Probe::WorkTree => if succeeded { ProbeStep::Run(Probe::Changes) } else { ProbeStep::Done(None) },
        Probe::Changes => if output_empty {
            ProbeStep::Run(Probe::Upstream)
        } else {
            ProbeStep::Done(Some(RepoStatus::Uncommitted))
        },
        Probe::Upstream => if succeeded {
            ProbeStep::Run(Probe::Unpushed)
        } else {
            ProbeStep::Done(Some(RepoStatus::NoUpstream))
        },
        Probe::Unpushed => if output_empty {
            ProbeStep::Done(Some(RepoStatus::Clean))
        } else {
            ProbeStep::Done(Some(RepoStatus::NotPushed))
        },
    }
}

/// The repositories that need attention, by kind, in the order met.
#[derive(Debug)]
pub struct RepoReport {
    pub uncommitted: Vec<String>,
    pub no_upstream: Vec<String>,
    pub not_pushed: Vec<String>,
}

impl RepoReport {
    /// An empty report.
    pub fn new() -> (r: RepoReport)
        ensures
            r.uncommitted@.len() == 0,
            r.no_upstream@.len() == 0,
            r.not_pushed@.len() == 0,
    {
        RepoReport { uncommitted: Vec::new(), no_upstream: Vec::new(), not_pushed: Vec::new() }
    }

    /// Whether nothing needs attention.
    pub fn is_empty(&self) -> (r: bool)
        ensures
            r == (self.uncommitted@.len() == 0 && self.no_upstream@.len() == 0 && self.not_pushed@.len() == 0),
    {
        self.uncommitted.len() == 0 && self.no_upstream.len() == 0 && self.not_pushed.len() == 0
    }

    /// File `path` under its status; a clean repository is not listed.
    pub fn record(&mut self, path: String, status: RepoStatus)
        ensures
            final(self).uncommitted@ == if status == RepoStatus::Uncommitted {
                old(self).uncommitted@.push(path)
            } else {
                old(self).uncommitted@
            },
            final(self).no_upstream@ == if status == RepoStatus::NoUpstream {
                old(self).no_upstream@.push(path)
            } else {
                old(self).no_upstream@
            },
            final(self).not_pushed@ == if status == RepoStatus::NotPushed {
                old(self).not_pushed@.push(path)
            } else {
                old(self).not_pushed@
            },
    {
        match status {
            RepoStatus::Uncommitted => self.uncommitted.push(path),
            RepoStatus::NoUpstream => self.no_upstream.push(path),
            RepoStatus::NotPushed => self.not_pushed.push(path),
            RepoStatus::Clean => {},
        }
    }
}

/// What a command does in a repository whose status is clean.
#[derive(Clone, Copy, PartialEq, Eq, Debug)]
pub enum GitAction {
    Pull,
    Push,
}

/// The commands that visit repositories.
#[derive(Clone, Copy, PartialEq, Eq, Debug)]
pub enum RemoteCommand {
    Check,
    Pull,
    Push,
}

/// The action `command` takes in a clean repository.
pub open spec fn on_ok_action(command: RemoteCommand) -> Option<GitAction> {
    match command {
        RemoteCommand::Check => None,
        RemoteCommand::Pull => Some(GitAction::Pull),
        RemoteCommand::Push => Some(GitAction::Push),
    }
}

/// A run of a repository command over parent directories: the repositories
/// found in them are checked, clean ones get the command's action, the
/// others are reported.
#[derive(Debug)]
pub struct RemoteSession {
    pub command: RemoteCommand,
    pub directories: Vec<String>,
    pub report: RepoReport,
}

fn copy_strings(v: &Vec<String>) -> (r: Vec<String>)
    ensures
        r@ == v@,
{
    let mut out: Vec<String> = Vec::new();
    let mut i: usize = 0;
    while i < v.len()
        invariant
            i <= v@.len(),
            out@ == v@.subrange(0, i as int),
        decreases v@.len() - i,
    {
        out.push(v[i].clone());
        assert(out@ =~= v@.subrange(0, i + 1));
        i = i + 1;
    }
    assert(v@.subrange(0, v@.len() as int) =~= v@);
    out
}

impl RemoteSession {
    /// A session of `command` over `directories`, with an empty report.
    pub fn new(command: RemoteCommand, directories: &Vec<String>) -> (r: RemoteSession)
        ensures
            r.command == command,
            r.directories@ == directories@,
            r.report.uncommitted@.len() == 0,
            r.report.no_upstream@.len() == 0,
            r.report.not_pushed@.len() == 0,
    {
        RemoteSession { command, directories: copy_strings(directories), report: RepoReport::new() }
    }

    /// Take in the status of the repository at `path`: a clean one gets the
    /// command's action, which is returned; any other is put in the report.
    pub fn after_status(&mut self, path: String, status: RepoStatus) -> (r: Option<GitAction>)
        ensures
            final(self).command == old(self).command,
            final(self).directories == old(self).directories,
            status == RepoStatus::Clean ==> r == on_ok_action(old(self).command),
            status != RepoStatus::Clean ==> r is None,
            final(self).report.uncommitted@ == if status == RepoStatus::Uncommitted {
                old(self).report.uncommitted@.push(path)
            } else {
                old(self).report.uncommitted@
            },
            final(self).report.no_upstream@ == if status == RepoStatus::NoUpstream {
                old(self).report.no_upstream@.push(path)
            } else {
                old(self).report.no_upstream@
            },
            final(self).report.not_pushed@ == if status == RepoStatus::NotPushed {
                old(self).report.not_pushed@.push(path)
            } else {
                old(self).report.not_pushed@
            },
    {
        if let RepoStatus::Clean = status {
            match self.command {
                RemoteCommand::Check => crate::git_utilities::check_repos::on_ok_check(path.as_str()),
                RemoteCommand::Pull => Some(crate::git_utilities::pull_repos::on_ok_pull(path.as_str())),
                RemoteCommand::Push => Some(crate::git_utilities::push_repos::on_ok_push(path.as_str())),
            }
        } else {
            self.report.record(path, status);
            None
        }
    }
}

} // verus!
