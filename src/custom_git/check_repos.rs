use vstd::prelude::*;
use crate::cli::RemoteOperationArgs;
use crate::repo::{RemoteCommand, RemoteSession};

verus! {

/// Start the `check-repos` command over the given directories.
pub fn run(args: &RemoteOperationArgs) -> (r: RemoteSession)
    ensures
        r.command == RemoteCommand::Check,
        r.directories@ == args.directories@,
        r.report.uncommitted@.len() == 0,
        r.report.no_upstream@.len() == 0,
        r.report.not_pushed@.len() == 0,
{
    RemoteSession::new(RemoteCommand::Check, &args.directories)
}

} // verus!
