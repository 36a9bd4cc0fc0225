use vstd::prelude::*;
use crate::cli::RemoteOperationArgs;
use crate::repo::{GitAction, RemoteCommand, RemoteSession};

verus! {

/// Start the `check-repos` command over the given directories.
pub fn run(args: &RemoteOperationArgs) -> (r: RemoteSession)
    ensures
        r.command == RemoteCommand::Check,
        r.directories@ == args.directories@,
        r.report.uncommitted@.len() == 0,
        r.report.no_upstream@.len() == 0,
        r.report.not_pushed@.len() == 0,
{
    RemoteSession::new(RemoteCommand::Check, &args.directories)
}

/// A clean repository needs nothing more when only checking.
pub fn on_ok_check(path: &str) -> (r: Option<GitAction>)
    ensures
        r is None,
{
    None
}

} // verus!
