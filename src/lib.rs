//! Developer command-line utilities, centred on a bulk rename engine:
//! patterns are classified as globs or literal paths, globs are searched
//! from an inferred root and select files only, candidates are told apart by
//! their canonical paths, and each one gets a target built from a `{}`
//! expression and a decision that never overwrites an existing entry.
//! Around it: the decisions of the repository status, pull and push
//! commands, and the tree that the content collector fills.

pub mod candidate;
pub mod cli;
pub mod collector;
pub mod content;
pub mod custom_git;
pub mod executor;
pub mod git_utilities;
pub mod glob;
pub mod logger;
pub mod path;
pub mod pattern;
pub mod repo;
