use fafnir::path::{compute_target_path, file_stem, substitute_placeholder};
use fafnir::pattern::{infer_search_root, is_glob_like, match_subject};

#[test]
fn glob_like_detects_each_metacharacter() {
    assert!(is_glob_like("*.rs"));
    assert!(is_glob_like("file?.txt"));
    assert!(is_glob_like("[ab].md"));
    assert!(!is_glob_like("plain/path.txt"));
    assert!(!is_glob_like(""));
    assert!(!is_glob_like("{}.md"));
}

#[test]
fn search_root_of_relative_glob_in_directory() {
    assert_eq!(infer_search_root("src/*.rs"), "src/");
}

#[test]
fn search_root_without_separator_is_current_directory() {
    assert_eq!(infer_search_root("*.rs"), ".");
}

#[test]
fn search_root_stops_at_first_metacharacter() {
    assert_eq!(infer_search_root("a/b/c*/d.txt"), "a/b/");
    assert_eq!(infer_search_root("/home/me/file*"), "/home/me/");
    assert_eq!(infer_search_root("dir\\sub\\*.txt"), "dir\\sub\\");
}

#[test]
fn search_root_of_literal_is_the_pattern() {
    assert_eq!(infer_search_root("notes/todo.md"), "notes/todo.md");
}

#[test]
fn match_subject_depends_on_pattern_kind() {
    let abs = match_subject(
        "/tmp/*.txt",
        "x/a.txt".to_string(),
        Some("/tmp/a.txt".to_string()),
        Some("a.txt".to_string()),
    );
    assert_eq!(abs, "/tmp/a.txt");
    let rel = match_subject("*.txt", "/w/a.txt".to_string(), Some("/w/a.txt".to_string()), Some("a.txt".to_string()));
    assert_eq!(rel, "a.txt");
    let fallback = match_subject("*.txt", "/w/a.txt".to_string(), None, None);
    assert_eq!(fallback, "/w/a.txt");
}

#[test]
fn stem_drops_only_final_extension() {
    assert_eq!(file_stem("/tmp/report.final.md"), "report.final");
    assert_eq!(file_stem("noext"), "noext");
    assert_eq!(file_stem(".bashrc"), ".bashrc");
    assert_eq!(file_stem("dir/archive.tar.gz"), "archive.tar");
    assert_eq!(file_stem("notes/"), "notes");
    assert_eq!(file_stem("/"), "");
}

#[test]
fn placeholder_replaced_everywhere() {
    assert_eq!(substitute_placeholder("{}-{}.md", "x"), "x-x.md");
    assert_eq!(substitute_placeholder("fixed.md", "x"), "fixed.md");
    assert_eq!(substitute_placeholder("{{}}", "x"), "{x}");
}

#[test]
fn target_keeping_the_name_is_the_original() {
    assert_eq!(compute_target_path("/tmp/report.final.md", "{}.md"), "/tmp/report.final.md");
}

#[test]
fn target_is_a_sibling() {
    assert_eq!(compute_target_path("/tmp/x.txt", "renamed-{}.md"), "/tmp/renamed-x.md");
    assert_eq!(compute_target_path("a.txt", "{}.bak"), "a.bak");
    assert_eq!(compute_target_path("./a.txt", "{}.bak"), "./a.bak");
}

#[test]
fn absolute_target_ignores_parent() {
    assert_eq!(compute_target_path("/tmp/x.txt", "/out/{}.bak"), "/out/x.bak");
}

#[test]
fn explicit_directory_target() {
    assert_eq!(compute_target_path("notes", "{}-archive"), "notes-archive");
    assert_eq!(compute_target_path("notes/", "{}-archive"), "notes-archive");
    assert_eq!(compute_target_path("work/notes", "{}-archive"), "work/notes-archive");
}

#[test]
fn target_under_root_directory() {
    assert_eq!(compute_target_path("/x.txt", "{}.md"), "/x.md");
}

#[test]
fn trailing_current_directory_segment_is_dropped() {
    assert_eq!(file_stem("notes/."), "notes");
    assert_eq!(compute_target_path("notes/.", "{}-archive"), "notes-archive");
}
