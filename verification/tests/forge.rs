use zstore::forge::{ForgeType, RepositoryUrlParser};

fn parser_cases() {
    let cb = RepositoryUrlParser::parse("https://codeberg.org/FreeTube/FreeTube").unwrap();
    assert_eq!(cb.forge, ForgeType::Codeberg);
    assert_eq!(cb.host, "codeberg.org");
    assert_eq!(cb.owner, "FreeTube");
    assert_eq!(cb.repo, "FreeTube");
    assert_eq!(cb.to_app_id(), "codeberg:FreeTube/FreeTube");

    let gh = RepositoryUrlParser::parse("https://github.com/localsend/localsend.git").unwrap();
    assert_eq!(gh.forge, ForgeType::GitHub);
    assert_eq!(gh.host, "github.com");
    assert_eq!(gh.owner, "localsend");
    assert_eq!(gh.repo, "localsend");
    assert_eq!(gh.to_app_id(), "localsend/localsend");

    let custom = RepositoryUrlParser::parse("https://git.disroot.org/user/my-app/").unwrap();
    assert_eq!(custom.forge, ForgeType::Gitea);
    assert_eq!(custom.host, "git.disroot.org");
    assert_eq!(custom.owner, "user");
    assert_eq!(custom.repo, "my-app");
    assert_eq!(custom.to_app_id(), "gitea:git.disroot.org/user/my-app");

    let cb_short = RepositoryUrlParser::parse("codeberg:author/repo").unwrap();
    assert_eq!(cb_short.forge, ForgeType::Codeberg);
    assert_eq!(cb_short.owner, "author");
    assert_eq!(cb_short.repo, "repo");

    let legacy = RepositoryUrlParser::parse("rustdesk/rustdesk").unwrap();
    assert_eq!(legacy.forge, ForgeType::GitHub);
    assert_eq!(legacy.owner, "rustdesk");
    assert_eq!(legacy.repo, "rustdesk");
    assert_eq!(legacy.to_app_id(), "rustdesk/rustdesk");

    let gl = RepositoryUrlParser::parse("https://gitlab.com/inkscape/inkscape").unwrap();
    assert_eq!(gl.forge, ForgeType::GitLab);
    assert_eq!(gl.host, "gitlab.com");
    assert_eq!(gl.owner, "inkscape");
    assert_eq!(gl.repo, "inkscape");
    assert_eq!(gl.to_app_id(), "gitlab:inkscape/inkscape");

    assert!(RepositoryUrlParser::parse("invalid query here").is_none());
    assert!(RepositoryUrlParser::parse("").is_none());
}

#[test]
fn forge_test_repository_url_parser() {
    parser_cases();
}

#[test]
fn tests_test_repository_url_parser() {
    parser_cases();
}

fn metadata_cases() {
    assert_eq!(ForgeType::GitHub.icon(), "🐙");
    assert_eq!(ForgeType::Codeberg.icon(), "🏔️");
    assert_eq!(ForgeType::Gitea.icon(), "🍵");
    assert_eq!(ForgeType::GitLab.icon(), "🦊");
    assert_eq!(ForgeType::GitHub.default_host(), "github.com");
    assert_eq!(ForgeType::Codeberg.default_host(), "codeberg.org");
    assert_eq!(ForgeType::GitLab.default_host(), "gitlab.com");
}

#[test]
fn forge_test_forge_type_metadata() {
    metadata_cases();
}

#[test]
fn tests_test_forge_type_metadata() {
    metadata_cases();
}

#[test]
fn web_url_and_repo_key() {
    let c = RepositoryUrlParser::parse("https://codeberg.org/FreeTube/FreeTube").unwrap();
    assert_eq!(c.web_url(), "https://codeberg.org/FreeTube/FreeTube");
    assert_eq!(c.to_repo_key(), "codeberg.org/freetube/freetube");
    assert_eq!(ForgeType::Gitea.as_str(), "gitea");
}

#[test]
fn app_id_parses_back_to_the_same_repository() {
    let c = RepositoryUrlParser::parse("https://git.disroot.org/user/my-app").unwrap();
    let back = RepositoryUrlParser::parse(&c.to_app_id()).unwrap();
    assert_eq!(back.forge, c.forge);
    assert_eq!(back.host, c.host);
    assert_eq!(back.owner, c.owner);
    assert_eq!(back.repo, c.repo);
}
