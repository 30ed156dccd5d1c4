use arbor::commands::clone::{clone_destination, expand_shorthand, repo_name_from_url};

#[test]
fn https_url_with_git_suffix() {
    let name = repo_name_from_url("https://github.com/user/repo.git").unwrap();
    assert_eq!(name, "repo");
}

#[test]
fn https_url_without_git_suffix() {
    let name = repo_name_from_url("https://github.com/user/repo").unwrap();
    assert_eq!(name, "repo");
}

#[test]
fn ssh_url() {
    let name = repo_name_from_url("git@github.com:user/my-project.git").unwrap();
    assert_eq!(name, "my-project");
}

#[test]
fn url_with_nested_path() {
    let name = repo_name_from_url("https://gitlab.com/org/group/subgroup/repo.git").unwrap();
    assert_eq!(name, "repo");
}

#[test]
fn ssh_url_without_org() {
    let name = repo_name_from_url("git@github.com:repo.git").unwrap();
    assert_eq!(name, "repo");
}

#[test]
fn empty_url_does_not_panic() {
    let name = repo_name_from_url("").unwrap();
    assert_eq!(name, "");
}

#[test]
fn shorthand_expands_to_github_https() {
    assert_eq!(expand_shorthand("user/repo"), "https://github.com/user/repo");
}

#[test]
fn shorthand_preserves_https_url() {
    let url = "https://github.com/user/repo.git";
    assert_eq!(expand_shorthand(url), url);
}

#[test]
fn shorthand_preserves_ssh_url() {
    let url = "git@github.com:user/repo.git";
    assert_eq!(expand_shorthand(url), url);
}

#[test]
fn shorthand_ignores_nested_path() {
    let input = "org/group/repo";
    assert_eq!(expand_shorthand(input), input);
}

#[test]
fn shorthand_ignores_bare_name() {
    let input = "repo";
    assert_eq!(expand_shorthand(input), input);
}

#[test]
fn shorthand_ignores_empty_sides() {
    assert_eq!(expand_shorthand("/repo"), "/repo");
    assert_eq!(expand_shorthand("user/"), "user/");
}

#[test]
fn expanding_twice_changes_nothing() {
    let once = expand_shorthand("user/my-app");
    assert_eq!(expand_shorthand(&once), once);
}

#[test]
fn shorthand_names_its_repository() {
    let url = expand_shorthand("user/my-app.git");
    assert_eq!(repo_name_from_url(&url).unwrap(), "my-app");
}

#[test]
fn bare_clone_goes_under_repos_dir() {
    assert_eq!(clone_destination("/home/u/.arbor/repos", "my-app"), "/home/u/.arbor/repos/my-app.git");
    assert_eq!(clone_destination("/repos/", "x"), "/repos/x.git");
}

#[test]
fn clone_is_listed_under_url_name() {
    for url in ["https://github.com/user/repo.git", "git@github.com:user/my-project", "plain", ""] {
        let name = repo_name_from_url(url).unwrap();
        let dest = clone_destination("/home/u/.arbor/repos", &name);
        assert_eq!(arbor::git::commands::repo_name(&dest), Ok(name));
    }
}
