use fafnir::content::{ContentNode, ContentTree};

fn parts(p: &[&str]) -> Vec<String> {
    p.iter().map(|s| s.to_string()).collect()
}

fn file_text<'a>(t: &'a ContentTree, path: &[&str]) -> Option<&'a str> {
    let (last, dirs) = path.split_last()?;
    let mut cur = t;
    for d in dirs {
        match cur.entries.iter().find(|(n, _)| n == d) {
            Some((_, ContentNode::Dir(sub))) => cur = sub,
            _ => return None,
        }
    }
    match cur.entries.iter().find(|(n, _)| n == last) {
        Some((_, ContentNode::File(text))) => Some(text.as_str()),
        _ => None,
    }
}

#[test]
fn nested_files_share_directories() {
    let mut t = ContentTree::new();
    assert!(t.insert_file(&parts(&["src", "main.rs"]), "fn main() {}".to_string()));
    assert!(t.insert_file(&parts(&["src", "lib.rs"]), "pub mod a;".to_string()));
    assert!(t.insert_file(&parts(&["README.md"]), "# hi".to_string()));
    assert_eq!(t.entries.len(), 2);
    assert_eq!(file_text(&t, &["src", "main.rs"]), Some("fn main() {}"));
    assert_eq!(file_text(&t, &["src", "lib.rs"]), Some("pub mod a;"));
    assert_eq!(file_text(&t, &["README.md"]), Some("# hi"));
}

#[test]
fn file_in_the_way_refuses_insert() {
    let mut t = ContentTree::new();
    assert!(t.insert_file(&parts(&["a"]), "x".to_string()));
    assert!(!t.insert_file(&parts(&["a", "b.txt"]), "y".to_string()));
    assert_eq!(file_text(&t, &["a"]), Some("x"));
    assert!(!t.insert_file(&parts(&[]), "z".to_string()));
}

#[test]
fn same_path_replaces_text() {
    let mut t = ContentTree::new();
    assert!(t.insert_file(&parts(&["d", "f"]), "old".to_string()));
    assert!(t.insert_file(&parts(&["d", "f"]), "new".to_string()));
    assert_eq!(file_text(&t, &["d", "f"]), Some("new"));
    assert_eq!(t.entries.len(), 1);
}

#[test]
fn ignore_rules_in_order() {
    let args = fafnir::cli::CollectArgs {
        path: ".".to_string(),
        output_file: "content.json".to_string(),
        ignore: vec!["target".to_string()],
        ignore_all: vec!["node_modules".to_string(), ".git".to_string()],
    };
    assert_eq!(
        fafnir::collector::ignore_overrides(&args),
        vec!["!**/node_modules", "!**/.git", "!target", "!content.json"]
    );
}

#[test]
fn directories_off_the_path_are_untouched() {
    let mut t = ContentTree::new();
    assert!(t.insert_file(&parts(&["a", "x"]), "1".to_string()));
    assert!(t.insert_file(&parts(&["b", "c", "y"]), "2".to_string()));
    assert_eq!(t.entries.len(), 2);
    assert_eq!(file_text(&t, &["a", "x"]), Some("1"));
    match &t.entries[0].1 {
        ContentNode::Dir(sub) => assert_eq!(sub.entries.len(), 1),
        _ => panic!("expected a directory"),
    }
}
