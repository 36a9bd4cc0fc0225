use vstd::prelude::*;
use crate::cli::RemoteOperationArgs;
use crate::repo::{RemoteCommand, RemoteSession};
use crate::repo::GitAction;

verus! {

/// Start the `push-repos` command over the given directories.
pub fn run(args: &RemoteOperationArgs) -> (r: RemoteSession)
    ensures
        r.command == RemoteCommand::Push,
        r.directories@ == args.directories@,
        r.report.uncommitted@.len() == 0,
        r.report.no_upstream@.len() == 0,
        r.report.not_pushed@.len() == 0,
{
    RemoteSession::new(RemoteCommand::Push, &args.directories)
}

/// A clean repository is pushed.
pub fn on_ok_push(path: &str) -> (r: GitAction)
    ensures
        r == GitAction::Push,
{
    GitAction::Push
}

} // verus!
