use arbor::commands::list::{name_less, repo_dirs, sort_names};

#[test]
fn names_compare_by_code_point() {
    assert!(name_less("a", "b"));
    assert!(name_less("ab", "abc"));
    assert!(!name_less("abc", "ab"));
    assert!(!name_less("a", "a"));
    assert!(name_less("", "a"));
    assert!(name_less("Z", "a"));
    assert!(name_less("z", "\u{e9}"));
}

#[test]
fn names_sorted() {
    let names = vec!["web.git".to_string(), "api.git".to_string(), "Zeta".to_string(), "api".to_string()];
    assert_eq!(sort_names(names), vec!["Zeta", "api", "api.git", "web.git"]);
    assert!(sort_names(Vec::new()).is_empty());
}

#[test]
fn only_directories_are_listed() {
    let entries = vec![
        ("web.git".to_string(), true),
        ("notes.txt".to_string(), false),
        ("api.git".to_string(), true),
    ];
    assert_eq!(repo_dirs(&entries), vec!["api.git", "web.git"]);
}
