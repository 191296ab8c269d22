use zstore::catalog::{CatalogItem, CatalogService};
use zstore::developer::{
    developer_account, developer_urls, shown_public_repos, starred_http_error, starred_other_repo, starred_url, unreadable_user,
    GitHubRepo, GitHubUser,
};

fn item(id: &str, owner: &str, repo: &str) -> CatalogItem {
    CatalogItem {
        id: id.to_string(),
        name: format!("{} app", id),
        chinese_name: None,
        owner: owner.to_string(),
        repo: repo.to_string(),
        icon: String::new(),
        icon_bg: String::new(),
        description: "desc".to_string(),
        category: "c".to_string(),
        category_name: "C".to_string(),
        aliases: Vec::new(),
        default_version: "v9".to_string(),
        license: "MIT".to_string(),
        stars: 5,
        forks: 2,
        is_verified: false,
        publisher_fingerprint: None,
        homepage: None,
        identifiers: Vec::new(),
        executables: Vec::new(),
        install_dirs: Vec::new(),
        search_subdirs: Vec::new(),
        publishers: Vec::new(),
        platforms: Vec::new(),
    }
}

#[test]
fn developer_pages() {
    assert_eq!(developer_account("  ").unwrap_err(), "开发者账号不能为空");
    assert_eq!(developer_account(" rustdesk ").unwrap(), "rustdesk");
    let (u, r) = developer_urls("rustdesk");
    assert_eq!(u, "https://api.github.com/users/rustdesk");
    assert_eq!(r, "https://api.github.com/users/rustdesk/repos?sort=updated&per_page=30");
    assert_eq!(shown_public_repos(0, 4), 4);
    assert_eq!(shown_public_repos(7, 4), 7);

    let cat = CatalogService::new(vec![item("rustdesk", "rustdesk", "rustdesk"), item("other", "someone", "x")]);
    let listed = cat.developer_repo_item("RustDesk", Some("rustdesk".to_string()), None, None, None, Some(3), None, None);
    assert!(listed.in_catalog);
    assert_eq!(listed.name, "rustdesk app");
    assert_eq!(listed.full_name, "RustDesk/rustdesk");
    assert_eq!(listed.latest_release_tag.as_deref(), Some("v9"));
    let plain = cat.developer_repo_item("rustdesk", Some("tool".to_string()), Some("rustdesk/tool".to_string()), None, None, None, None, None);
    assert!(!plain.in_catalog);
    assert_eq!(plain.html_url, "https://github.com/rustdesk/tool");
    let fallback = cat.catalog_repos_of("RUSTDESK");
    assert_eq!(fallback.len(), 1);
    assert_eq!(fallback[0].full_name, "rustdesk/rustdesk");
    assert_eq!(fallback[0].language.as_deref(), Some("Rust / C++"));
}

#[test]
fn starred_lists() {
    assert_eq!(starred_url(None, true).unwrap(), "https://api.github.com/user/starred?per_page=100");
    assert_eq!(starred_url(Some(" me "), true).unwrap(), "https://api.github.com/users/me/starred?per_page=100");
    assert!(starred_url(Some("   "), false).unwrap_err().contains("请提供 GitHub 用户名"));
    assert!(starred_url(None, false).is_err());
    assert!(starred_http_error(401, None, None).contains("401"));
    assert_eq!(starred_http_error(404, Some("ghost"), None), "未在 GitHub 上找到用户「ghost」，请检查用户名拼写是否正确。");
    assert_eq!(starred_http_error(500, None, Some("Internal Server Error")), "GitHub API 响应异常 (HTTP 500): Internal Server Error");
    let other = starred_other_repo(Some("a/b".to_string()), Some("b".to_string()), None, None, None, Some(1), None);
    assert_eq!(other.html_url, "https://github.com/a/b");
    assert!(!other.in_catalog);
}

#[test]
fn developer_profile_headers() {
    let cat = CatalogService::new(vec![item("rustdesk", "rustdesk", "rustdesk"), item("rd2", "RustDesk", "server"), item("other", "someone", "x")]);

    let offline = cat.developer_profile("rustdesk", None, Vec::new());
    assert_eq!(offline.login, "rustdesk");
    assert_eq!(offline.name.as_deref(), Some("rustdesk"));
    assert_eq!(offline.avatar_url, "https://avatars.githubusercontent.com/rustdesk");
    assert_eq!(offline.html_url, "https://github.com/rustdesk");
    assert_eq!(offline.bio.as_deref(), Some("GitHub 知名开源贡献者/团队 rustdesk"));
    assert_eq!(offline.public_repos, 2);
    assert_eq!(offline.followers, 100);
    assert_eq!(offline.following, 0);
    assert_eq!(offline.repos.len(), 2);
    assert_eq!(offline.repos[1].full_name, "RustDesk/server");

    let user = GitHubUser {
        login: "rustdesk".to_string(),
        name: Some("RustDesk".to_string()),
        avatar_url: None,
        html_url: Some("https://github.com/rustdesk-org".to_string()),
        bio: None,
        company: Some("RD".to_string()),
        blog: None,
        location: None,
        public_repos: Some(0),
        followers: Some(12),
        following: None,
    };
    let listed = vec![cat.developer_repo_item("rustdesk", Some("tool".to_string()), None, None, None, None, None, None)];
    let online = cat.developer_profile("rustdesk", Some(user), listed);
    assert_eq!(online.avatar_url, "https://avatars.githubusercontent.com/rustdesk");
    assert_eq!(online.html_url, "https://github.com/rustdesk-org");
    assert_eq!(online.company.as_deref(), Some("RD"));
    assert_eq!(online.public_repos, 1);
    assert_eq!(online.followers, 12);
    assert_eq!(online.following, 0);
    assert_eq!(online.repos.len(), 1);
    assert_eq!(online.repos[0].full_name, "rustdesk/tool");

    let unread = unreadable_user("octo");
    assert_eq!(unread.login, "octo");
    assert_eq!(unread.avatar_url.as_deref(), Some("https://avatars.githubusercontent.com/octo"));
    assert_eq!(unread.html_url.as_deref(), Some("https://github.com/octo"));
    let empty_online = cat.developer_profile("octo", Some(unread), Vec::new());
    assert_eq!(empty_online.public_repos, 0);
    assert!(empty_online.repos.is_empty());
}

fn starred(full_name: Option<&str>, name: &str) -> GitHubRepo {
    GitHubRepo {
        name: Some(name.to_string()),
        full_name: full_name.map(|f| f.to_string()),
        html_url: None,
        description: Some("d".to_string()),
        stargazers_count: Some(7),
        forks_count: None,
        language: Some("Go".to_string()),
    }
}

#[test]
fn starred_lists_split_by_catalog() {
    let cat = CatalogService::new(vec![item("rustdesk", "rustdesk", "rustdesk"), item("obs", "obsproject", "obs-studio")]);
    let list = vec![
        starred(Some("someone/rustdesk"), "rustdesk"),
        starred(Some("ObsProject/OBS-Studio"), "obs-studio"),
        starred(Some("RUSTDESK"), "rustdesk"),
        starred(None, "nameless"),
    ];
    let r = cat.sync_starred(&list);
    assert_eq!(r.total_starred, 4);
    assert_eq!(r.catalog_matches.len() + r.other_repos.len(), r.total_starred);
    let ids: Vec<&str> = r.catalog_matches.iter().map(|s| s.id.as_str()).collect();
    assert_eq!(ids, vec!["obs", "rustdesk"]);
    assert_eq!(r.other_repos.len(), 2);
    assert_eq!(r.other_repos[0].full_name, "someone/rustdesk");
    assert_eq!(r.other_repos[0].html_url, "https://github.com/someone/rustdesk");
    assert_eq!(r.other_repos[0].stars, 7);
    assert_eq!(r.other_repos[0].forks, 0);
    assert!(!r.other_repos[0].in_catalog);
    assert_eq!(r.other_repos[1].full_name, "");
    assert_eq!(r.other_repos[1].name, "nameless");
    let empty = cat.sync_starred(&Vec::new());
    assert_eq!(empty.total_starred, 0);
    assert!(empty.catalog_matches.is_empty() && empty.other_repos.is_empty());
}

fn localsend_catalog() -> CatalogService {
    CatalogService::new(vec![item("localsend", "localsend", "localsend"), item("rustdesk", "rustdesk", "rustdesk")])
}

#[test]
fn github_test_fetch_developer_profile_fallback() {
    // GitHub unreachable: the catalog stands in for the developer's page.
    let profile = localsend_catalog().developer_profile("localsend", None, Vec::new());
    assert_eq!(profile.login, "localsend");
    assert!(!profile.repos.is_empty());
    assert!(profile.repos.iter().any(|r| r.in_catalog));
}

#[test]
fn tests_test_fetch_developer_profile_fallback() {
    let profile = localsend_catalog().developer_profile("localsend", None, Vec::new());
    assert_eq!(profile.login, "localsend");
    assert!(!profile.repos.is_empty());
    assert!(profile.repos.iter().any(|r| r.in_catalog));
}

#[test]
fn test_sync_starred_repos_empty_username_err() {
    let result = starred_url(Some("   "), false);
    assert!(result.is_err());
    assert!(result.unwrap_err().contains("请提供 GitHub 用户名"));
}
