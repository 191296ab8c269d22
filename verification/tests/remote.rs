use zstore::forge::{ForgeType, RepositoryUrlParser};
use zstore::remote::{
    auth_header_value, forge_auth_header, forge_latest_release_url, forge_repo_url, forge_search_url, gitlab_release_list_url,
    repo_info_from, ForgeProvider, ForgeRegistry, GitHubProvider, GitLabProvider, GiteaProvider,
};

#[test]
fn providers_and_hosts() {
    assert_eq!(GitHubProvider.forge_type(), ForgeType::GitHub);
    assert_eq!(GitHubProvider.default_host(), "github.com");
    assert_eq!(GitLabProvider.default_host(), "gitlab.com");
    assert_eq!(GiteaProvider::new(ForgeType::Codeberg).default_host(), "codeberg.org");
    assert_eq!(GiteaProvider::new(ForgeType::Gitea).default_host(), "gitea.com");
    assert_eq!(GiteaProvider::new(ForgeType::Gitea).forge_type(), ForgeType::Gitea);
    assert_eq!(ForgeRegistry::search_host(ForgeType::GitHub, Some("x.org")), "github.com");
    assert_eq!(ForgeRegistry::search_host(ForgeType::Codeberg, None), "codeberg.org");
    assert_eq!(ForgeRegistry::search_host(ForgeType::GitLab, Some("git.example")), "git.example");
}

#[test]
fn authorization_values() {
    assert_eq!(auth_header_value("Bearer", Some("  abc ")), Some("Bearer abc".to_string()));
    assert_eq!(auth_header_value("token", Some("x")), Some("token x".to_string()));
    assert_eq!(auth_header_value("token", Some("   ")), None);
    assert_eq!(auth_header_value("token", None), None);
}

#[test]
fn api_addresses() {
    assert_eq!(forge_repo_url(ForgeType::GitHub, "ignored", "o", "r"), "https://api.github.com/repos/o/r");
    assert_eq!(forge_repo_url(ForgeType::Codeberg, "codeberg.org", "o", "r"), "https://codeberg.org/api/v1/repos/o/r");
    assert_eq!(forge_repo_url(ForgeType::GitLab, "gitlab.com", "my group", "r.x"), "https://gitlab.com/api/v4/projects/my%20group%2Fr.x");
    assert_eq!(
        forge_latest_release_url(ForgeType::GitLab, "gitlab.com", "a", "b"),
        "https://gitlab.com/api/v4/projects/a%2Fb/releases/permalink/latest"
    );
    assert_eq!(forge_latest_release_url(ForgeType::Gitea, "h", "a", "b"), "https://h/api/v1/repos/a/b/releases/latest");
    assert_eq!(gitlab_release_list_url("h", "a", "b"), "https://h/api/v4/projects/a%2Fb/releases?per_page=1");
    assert_eq!(forge_search_url(ForgeType::GitHub, "", "video editor", 12), "https://api.github.com/search/repositories?q=video%20editor&per_page=10");
    assert_eq!(forge_search_url(ForgeType::GitLab, "gitlab.com", "x", 12), "https://gitlab.com/api/v4/projects?search=x&per_page=12");
    assert_eq!(forge_search_url(ForgeType::Codeberg, "codeberg.org", "x", 7), "https://codeberg.org/api/v1/repos/search?q=x&limit=7");
}

#[test]
fn repository_records_get_defaults() {
    let coord = RepositoryUrlParser::parse("codeberg:a/b").unwrap();
    let info = repo_info_from(coord, "b".to_string(), None, None, Some(3), None, None, Some("  ".to_string()));
    assert_eq!(info.stars, 0);
    assert_eq!(info.forks, 3);
    assert_eq!(info.default_branch, "main");
    assert!(info.homepage.is_none());
    assert_eq!(info.coord.host, "codeberg.org");
}

#[test]
fn release_records_classify_files() {
    let link = zstore::remote::gitlab_link_asset(
        "inkscape.AppImage".to_string(),
        "https://gitlab.com/x".to_string(),
        Some("https://gitlab.com/direct".to_string()),
    );
    assert_eq!(link, ("inkscape.AppImage".to_string(), "https://gitlab.com/direct".to_string(), 0));
    let plain = zstore::remote::gitlab_link_asset("a.msi".to_string(), "https://gitlab.com/a".to_string(), None);
    assert_eq!(plain.1, "https://gitlab.com/a");
    let r = zstore::remote::release_info_from("v1".to_string(), None, Some("b".to_string()), None, vec![link, plain]);
    assert_eq!(r.tag_name, "v1");
    assert_eq!(r.body.as_deref(), Some("b"));
    assert_eq!(r.assets.len(), 2);
    assert_eq!(r.assets[0].kind, "appimage");
    assert_eq!(r.assets[0].os, "linux");
    assert_eq!(r.assets[1].kind, "msi");
    assert_eq!(r.assets[1].download_url, "https://gitlab.com/a");
}

#[test]
fn each_platform_gets_its_auth_scheme() {
    assert_eq!(forge_auth_header(ForgeType::GitHub, Some(" t ")).as_deref(), Some("Bearer t"));
    assert_eq!(forge_auth_header(ForgeType::GitLab, Some("t")).as_deref(), Some("Bearer t"));
    assert_eq!(forge_auth_header(ForgeType::Gitea, Some("t")).as_deref(), Some("token t"));
    assert_eq!(forge_auth_header(ForgeType::Codeberg, Some("t")).as_deref(), Some("token t"));
    assert_eq!(forge_auth_header(ForgeType::GitHub, Some("  ")), None);
    assert_eq!(forge_auth_header(ForgeType::Gitea, None), None);
}
