use zstore::online::{online_repo, online_search_url, owner_repo_query, repo_not_found_message, search_hit};

#[test]
fn repository_queries() {
    assert_eq!(owner_repo_query(" a/b "), Some(("a".to_string(), "b".to_string())));
    assert_eq!(owner_repo_query("a b/c"), None);
    assert_eq!(owner_repo_query("a/b/c"), None);
    assert_eq!(owner_repo_query("plain"), None);
    assert_eq!(
        online_search_url(" video player ", 12),
        "https://api.github.com/search/repositories?q=video%20player+in:name,description&sort=stars&order=desc&per_page=12"
    );
    assert_eq!(repo_not_found_message("a", "b"), "未找到该 GitHub 仓库: a/b");
}

#[test]
fn found_repositories_as_listed() {
    let s = search_hit("a/b".to_string(), "b".to_string(), "a".to_string(), None, 3, 4);
    assert_eq!(s.repo, "b");
    assert_eq!(s.icon, "https://github.com/a.png");
    assert_eq!(s.description, "开源软件项目");
    assert_eq!(s.category, "dev");
    let r = online_repo("a", "b", None, None, None, Some(2), None, None);
    assert_eq!(r.id, "a/b");
    assert_eq!(r.name, "b");
    assert_eq!(r.license, "FLOSS");
    assert_eq!(r.forks, 2);
}
