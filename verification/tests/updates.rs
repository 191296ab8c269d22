use zstore::catalog::{resolve_repo_key, CatalogItem, CatalogService};
use zstore::models::UpdateRule;
use zstore::version::{is_version_newer, should_include_update};

fn version_newer_cases() {
    assert!(!is_version_newer("3.0.21.0", "v3.0.21"));
    assert!(!is_version_newer("3.0.21", "3.0.21.0"));
    assert!(!is_version_newer("v1.2.3", "1.2.3"));

    assert!(is_version_newer("3.0.20", "3.0.21"));
    assert!(is_version_newer("v1.0.0", "v1.1.0"));
    assert!(is_version_newer("1.9.9", "2.0.0"));

    assert!(!is_version_newer("3.0.22", "3.0.21"));
    assert!(!is_version_newer("1.4.0", "1.3.1"));
}

#[test]
fn commands_test_is_version_newer() {
    version_newer_cases();
}

#[test]
fn tests_test_is_version_newer() {
    version_newer_cases();
}

fn rule(skipped: Option<&str>, frozen: bool, hidden: bool) -> UpdateRule {
    UpdateRule {
        app_id: "test".to_string(),
        skipped_version: skipped.map(|s| s.to_string()),
        is_frozen: frozen,
        is_hidden: hidden,
        updated_at: 1000,
    }
}

fn include_update_cases() {
    assert!(should_include_update("v1.0.0", "v1.1.0", None));
    assert!(!should_include_update("v1.1.0", "v1.1.0", None));

    let frozen_rule = rule(None, true, false);
    assert!(!should_include_update("v1.0.0", "v2.0.0", Some(&frozen_rule)));

    let hidden_rule = rule(None, false, true);
    assert!(!should_include_update("v1.0.0", "v2.0.0", Some(&hidden_rule)));

    let skip_rule = rule(Some("v2.0.0"), false, false);
    assert!(!should_include_update("v1.0.0", "v2.0.0", Some(&skip_rule)));
    assert!(!should_include_update("v1.0.0", "2.0.0", Some(&skip_rule)));

    assert!(should_include_update("v1.0.0", "v2.1.0", Some(&skip_rule)));
}

#[test]
fn commands_test_should_include_update() {
    include_update_cases();
}

#[test]
fn tests_test_should_include_update() {
    include_update_cases();
}

fn item(id: &str, owner: &str, repo: &str) -> CatalogItem {
    CatalogItem {
        id: id.to_string(),
        name: id.to_string(),
        chinese_name: None,
        owner: owner.to_string(),
        repo: repo.to_string(),
        icon: String::new(),
        icon_bg: String::new(),
        description: String::new(),
        category: "system".to_string(),
        category_name: "System".to_string(),
        aliases: Vec::new(),
        default_version: "v1.0.0".to_string(),
        license: "MIT".to_string(),
        stars: 1,
        forks: 1,
        is_verified: false,
        publisher_fingerprint: None,
        homepage: None,
        identifiers: Vec::new(),
        executables: Vec::new(),
        install_dirs: Vec::new(),
        search_subdirs: Vec::new(),
        publishers: Vec::new(),
        platforms: Vec::new(),
    }
}

fn repo_key_cases() {
    let catalog = CatalogService::new(vec![item("rustdesk", "rustdesk", "rustdesk")]);

    let k1 = resolve_repo_key("rustdesk", &catalog);
    assert_eq!(k1, "github.com/rustdesk/rustdesk");

    let k2 = resolve_repo_key("rustdesk/rustdesk", &catalog);
    assert_eq!(k2, "github.com/rustdesk/rustdesk");

    let k3 = resolve_repo_key("https://github.com/rustdesk/rustdesk", &catalog);
    assert_eq!(k3, "github.com/rustdesk/rustdesk");

    let k4 = resolve_repo_key("codeberg:user/repo", &catalog);
    assert_eq!(k4, "codeberg.org/user/repo");
}

#[test]
fn commands_test_resolve_repo_key() {
    repo_key_cases();
}

#[test]
fn tests_test_resolve_repo_key() {
    repo_key_cases();
}

#[test]
fn repo_key_of_unknown_plain_id_is_the_cleaned_id() {
    let catalog = CatalogService::new(Vec::new());
    assert_eq!(resolve_repo_key("  SomeApp ", &catalog), "someapp");
}

#[test]
fn version_comparison_ignores_text_after_digits() {
    assert!(is_version_newer("1.2.3-beta", "1.2.4"));
    assert!(!is_version_newer("v2", "v2.0.0"));
    assert!(is_version_newer("nightly", "beta"));
}

#[test]
fn repo_key_of_lower_cased_id_is_the_same() {
    let catalog = CatalogService::new(vec![item("rustdesk", "rustdesk", "rustdesk")]);
    for id in ["  RustDesk ", "Owner/Repo", "gh:Some/Thing", "unknown"] {
        let cleaned = id.trim().to_lowercase();
        assert_eq!(resolve_repo_key(id, &catalog), resolve_repo_key(&cleaned, &catalog));
    }
}
