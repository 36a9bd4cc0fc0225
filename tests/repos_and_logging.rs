use fafnir::cli::RemoteOperationArgs;
use fafnir::git_utilities::{check_repos, pull_repos, push_repos};
use fafnir::logger::{init_verbose, Level, Logger};
use fafnir::repo::{after_probe, first_probe, GitAction, Probe, ProbeStep, RemoteCommand, RepoStatus};

#[test]
fn debug_shown_only_when_verbose() {
    let quiet = init_verbose(false);
    assert!(!quiet.emits(Level::Debug));
    assert!(quiet.emits(Level::Info));
    assert!(quiet.emits(Level::Error));
    let loud = init_verbose(true);
    assert!(loud.emits(Level::Debug));
    assert_eq!(Logger::label(Level::Warning), "WARNING");
}

fn status_from(answers: &[(bool, bool)]) -> Option<RepoStatus> {
    let mut p = first_probe();
    let mut k = 0;
    loop {
        let (ok, empty) = answers[k];
        match after_probe(p, ok, empty) {
            ProbeStep::Run(q) => p = q,
            ProbeStep::Done(s) => return s,
        }
        k += 1;
    }
}

#[test]
fn repo_status_from_queries() {
    assert_eq!(status_from(&[(false, true)]), None);
    assert_eq!(status_from(&[(true, true), (true, false)]), Some(RepoStatus::Uncommitted));
    assert_eq!(status_from(&[(true, true), (true, true), (false, true)]), Some(RepoStatus::NoUpstream));
    assert_eq!(status_from(&[(true, true), (true, true), (true, true), (true, false)]), Some(RepoStatus::NotPushed));
    assert_eq!(status_from(&[(true, true), (true, true), (true, true), (true, true)]), Some(RepoStatus::Clean));
    assert_eq!(first_probe(), Probe::WorkTree);
}

#[test]
fn sessions_take_their_action_on_clean_repositories() {
    let args = RemoteOperationArgs { directories: vec!["/src".to_string(), "/work".to_string()] };
    let mut check = check_repos::run(&args);
    assert_eq!(check.command, RemoteCommand::Check);
    assert_eq!(check.directories, args.directories);
    assert_eq!(check.after_status("/src/a".to_string(), RepoStatus::Clean), None);
    let mut pull = pull_repos::run(&args);
    assert_eq!(pull.after_status("/src/a".to_string(), RepoStatus::Clean), Some(GitAction::Pull));
    let mut push = push_repos::run(&args);
    assert_eq!(push.after_status("/src/a".to_string(), RepoStatus::Clean), Some(GitAction::Push));
    assert_eq!(push.after_status("/src/b".to_string(), RepoStatus::NotPushed), None);
    assert_eq!(push.report.not_pushed, vec!["/src/b".to_string()]);
    assert!(push.report.uncommitted.is_empty());
}

#[test]
fn report_files_by_status() {
    let args = RemoteOperationArgs { directories: vec![".".to_string()] };
    let mut s = fafnir::custom_git::check_repos::run(&args);
    s.after_status("u".to_string(), RepoStatus::Uncommitted);
    s.after_status("n".to_string(), RepoStatus::NoUpstream);
    s.after_status("c".to_string(), RepoStatus::Clean);
    assert_eq!(s.report.uncommitted, vec!["u".to_string()]);
    assert_eq!(s.report.no_upstream, vec!["n".to_string()]);
    assert!(s.report.not_pushed.is_empty());
    assert!(!s.report.is_empty());
}
