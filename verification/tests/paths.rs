use arbor::paths::{final_component, join};

#[test]
fn join_like_path_join() {
    assert_eq!(join("/a", "b"), "/a/b");
    assert_eq!(join("/a/", "b"), "/a/b");
    assert_eq!(join("/a", "/b"), "/b");
    assert_eq!(join("", "b"), "b");
    assert_eq!(join("/a", ""), "/a/");
}

#[test]
fn final_components() {
    assert_eq!(final_component("/home/u/repo.git"), Some("repo.git".to_string()));
    assert_eq!(final_component("/home/u/repo/"), Some("repo".to_string()));
    assert_eq!(final_component("/"), None);
    assert_eq!(final_component("/a/.."), None);
}

#[test]
fn joined_component_is_final() {
    assert_eq!(final_component(&join("/a/b/", "c.git")), Some("c.git".to_string()));
    assert_eq!(final_component(&join("", "c")), Some("c".to_string()));
    assert_eq!(final_component(&join("/a", "..")), None);
}
