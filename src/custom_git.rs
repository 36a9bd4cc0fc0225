pub mod check_repos;
pub mod pull_repos;
pub mod push_repos;
