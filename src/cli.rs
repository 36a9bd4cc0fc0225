use vstd::prelude::*;

verus! {

/// A collection of handy command-line tools for developers.
#[derive(Debug)]
pub struct Cli {
    /// The command to run.
    pub command: Commands,
    /// Enables verbose output (debug logs).
    pub verbose: bool,
}

/// All the commands.
#[derive(Debug)]
pub enum Commands {
    /// Collects repository content into a single JSON file.
    Collect(CollectArgs),
    /// Checks the status of all git repositories in one or more directories.
    CheckRepos(RemoteOperationArgs),
    /// Pulls the current branch of every git repository in one or more directories.
    PullRepos(RemoteOperationArgs),
    /// Pushes the current branch of every git repository in one or more directories.
    PushRepos(RemoteOperationArgs),
    /// Renames multiple files (and explicitly named directories) in bulk.
    BulkRename(BulkRenameArgs),
}

/// Arguments of the `collect` command.
#[derive(Debug)]
pub struct CollectArgs {
    /// The root directory to start scanning from.
    pub path: String,
    /// The path to the output file.
    pub output_file: String,
    /// Specific file or directory paths to ignore.
    pub ignore: Vec<String>,
    /// File or directory names to ignore wherever they are.
    pub ignore_all: Vec<String>,
}

/// Arguments of the `check-repos`, `pull-repos` and `push-repos` commands.
#[derive(Debug)]
pub struct RemoteOperationArgs {
    /// The parent directories whose repositories are visited.
    pub directories: Vec<String>,
}

/// Arguments of the `bulk-rename` command.
#[derive(Debug)]
pub struct BulkRenameArgs {
    /// Paths or glob patterns; globs match files only.
    pub patterns: Vec<String>,
    /// The expression new names are built from; `{}` stands for the stem.
    pub replacement: String,
    /// Search the roots inferred from glob patterns recursively.
    pub recursive: bool,
}

} // verus!
