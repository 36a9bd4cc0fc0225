use vstd::prelude::*;
use crate::cli::RemoteOperationArgs;
use crate::repo::{RemoteCommand, RemoteSession};
use crate::repo::GitAction;

verus! {

/// Start the `pull-repos` command over the given directories.
pub fn run(args: &RemoteOperationArgs) -> (r: RemoteSession)
    ensures
        r.command == RemoteCommand::Pull,
        r.directories@ == args.directories@,
        r.report.uncommitted@.len() == 0,
        r.report.no_upstream@.len() == 0,
        r.report.not_pushed@.len() == 0,
{
    RemoteSession::new(RemoteCommand::Pull, &args.directories)
}

/// A clean repository is pulled.
pub fn on_ok_pull(path: &str) -> (r: GitAction)
    ensures
        r == GitAction::Pull,
{
    GitAction::Pull
}

} // verus!
