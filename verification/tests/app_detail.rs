use zstore::app_detail::{detail_releases, ReleasePayload, RepoFigures};
use zstore::catalog::{CatalogItem, CatalogService};

fn rustdesk() -> CatalogItem {
    CatalogItem {
        id: "rustdesk".to_string(),
        name: "RustDesk".to_string(),
        chinese_name: None,
        owner: "rustdesk".to_string(),
        repo: "rustdesk".to_string(),
        icon: "🖥️".to_string(),
        icon_bg: "#000".to_string(),
        description: "Remote desktop".to_string(),
        category: "network".to_string(),
        category_name: "网络".to_string(),
        aliases: Vec::new(),
        default_version: "v1.0.0".to_string(),
        license: "AGPL-3.0".to_string(),
        stars: 100,
        forks: 7,
        is_verified: true,
        publisher_fingerprint: Some("AB:CD".to_string()),
        homepage: Some("rustdesk.com".to_string()),
        identifiers: Vec::new(),
        executables: Vec::new(),
        install_dirs: Vec::new(),
        search_subdirs: Vec::new(),
        publishers: Vec::new(),
        platforms: vec!["windows".to_string(), "linux".to_string()],
    }
}

fn file(name: &str) -> (String, String, u64) {
    (name.to_string(), format!("https://example.com/{}", name), 10)
}

#[test]
fn releases_best_suited_first_ties_in_order() {
    let assets = vec![
        file("app-linux.AppImage"),
        file("app-x86_64.msi"),
        file("app-aarch64.exe"),
        file("app-x86_64-setup.exe"),
        file("app-x86_64.deb"),
    ];
    let sums = vec![("app-x86_64.msi".to_string(), "ab".repeat(32))];
    let r = detail_releases(&assets, &sums, "windows", "x86_64");
    let names: Vec<&str> = r.iter().map(|a| a.name.as_str()).collect();
    assert_eq!(
        names,
        vec!["app-x86_64.msi", "app-x86_64-setup.exe", "app-aarch64.exe", "app-x86_64.deb", "app-linux.AppImage"]
    );
    assert_eq!(r[0].sha256.as_deref(), Some("ab".repeat(32).as_str()));
    assert_eq!(r[0].kind, "msi");
    assert_eq!(r[1].sha256, None);
    assert_eq!(r[3].os, "linux");
    assert_eq!(r[4].download_url, "https://example.com/app-linux.AppImage");
}

#[test]
fn detail_from_platform_answers() {
    let mut cat = CatalogService::new(vec![rustdesk()]);
    let release = ReleasePayload {
        tag_name: "v1.3.1".to_string(),
        body: Some("notes".to_string()),
        assets: vec![file("rustdesk-1.3.1-x86_64.msi")],
    };
    let figures = RepoFigures { stars: Some(70000), forks: None, license: None, homepage: None };
    let d = cat
        .assemble_app_detail("rustdesk", release, &Vec::new(), "# RustDesk\n\nhello", figures, "windows", "x86_64", 1_700_000_000)
        .unwrap();
    assert_eq!(d.id, "rustdesk");
    assert_eq!(d.name, "RustDesk");
    assert_eq!(d.stars, 70000);
    assert_eq!(d.forks, 7);
    assert_eq!(d.license, "AGPL-3.0");
    assert_eq!(d.latest_version, "v1.3.1");
    assert_eq!(d.changelog, "notes");
    assert!(d.is_verified);
    assert_eq!(d.signature_fingerprint.as_deref(), Some("AB:CD"));
    assert_eq!(d.icon, "https://github.com/rustdesk.png");
    assert_eq!(d.readme_markdown, "# RustDesk\n\nhello");
    assert_eq!(d.category, "network");
    assert_eq!(d.forge.as_deref(), Some("github"));
    assert_eq!(d.forge_host.as_deref(), Some("github.com"));
    assert_eq!(d.cached_at, Some(1_700_000_000));
    assert_eq!(d.is_stale_fallback, None);
    assert_eq!(d.homepage.as_deref(), Some("https://rustdesk.com"));
    assert_eq!(d.platforms, vec!["windows", "linux"]);
    assert_eq!(d.releases.len(), 1);
    let it = cat.get_catalog_item("rustdesk").unwrap();
    assert_eq!(it.stars, 70000);
    assert_eq!(it.forks, 7);
    assert_eq!(it.default_version, "v1.3.1");
}

#[test]
fn community_repository_detail_uses_defaults() {
    let mut cat = CatalogService::new(Vec::new());
    let release = ReleasePayload { tag_name: "v2".to_string(), body: None, assets: Vec::new() };
    let figures = RepoFigures { stars: None, forks: None, license: None, homepage: Some("  ".to_string()) };
    let d = cat.assemble_app_detail("someone/tool", release, &Vec::new(), "", figures, "linux", "x86_64", 5).unwrap();
    assert_eq!(d.owner, "someone");
    assert_eq!(d.repo, "tool");
    assert_eq!(d.license, "FLOSS");
    assert_eq!(d.stars, 0);
    assert_eq!(d.changelog, "");
    assert!(!d.is_verified);
    assert_eq!(d.category, "system");
    assert_eq!(d.category_name, "系统实用");
    assert_eq!(d.platforms, vec!["windows"]);
    assert_eq!(d.homepage, None);
    let missing = cat.assemble_app_detail(
        "nothing",
        ReleasePayload { tag_name: "v1".to_string(), body: None, assets: Vec::new() },
        &Vec::new(),
        "",
        RepoFigures { stars: None, forks: None, license: None, homepage: None },
        "linux",
        "x86_64",
        5,
    );
    assert_eq!(missing.unwrap_err(), "收录库中不存在该应用: nothing");
}

fn external() -> zstore::models::AppDetail {
    let coord = zstore::forge::RepositoryUrlParser::parse("codeberg:FreeTube/FreeTube").unwrap();
    let repo_info = zstore::remote::ForgeRepoInfo {
        coord: zstore::forge::RepositoryUrlParser::parse("codeberg:FreeTube/FreeTube").unwrap(),
        name: "FreeTube".to_string(),
        description: Some("Private YouTube".to_string()),
        stars: 12,
        forks: 3,
        language: None,
        default_branch: "main".to_string(),
        homepage: None,
    };
    let release = zstore::remote::ForgeReleaseInfo {
        tag_name: "v0.21".to_string(),
        name: None,
        body: None,
        published_at: None,
        assets: Vec::new(),
    };
    zstore::app_detail::external_app_detail("codeberg:FreeTube/FreeTube", coord, repo_info, release, 9)
}

#[test]
fn other_platform_detail() {
    let d = external();
    assert_eq!(d.owner, "FreeTube");
    assert_eq!(d.icon, "🏔️");
    assert_eq!(d.license, "OpenSource");
    assert_eq!(d.readme_markdown, "# FreeTube\n\nPrivate YouTube");
    assert_eq!(d.changelog, "");
    assert_eq!(d.category, "external");
    assert_eq!(d.forge.as_deref(), Some("codeberg"));
    assert_eq!(d.forge_host.as_deref(), Some("codeberg.org"));
    assert_eq!(d.platforms, vec!["windows"]);
    assert!(!d.wants_store_meta());
}

#[test]
fn cached_detail_updates() {
    let d = external().stale_copy("x");
    assert_eq!(d.id, "x");
    assert_eq!(d.is_stale_fallback, Some(true));
    let d = d.refreshed(77);
    assert_eq!(d.cached_at, Some(77));
    assert_eq!(d.is_stale_fallback, None);
    let d = d.served_from_cache("y", Some(Some("FP".to_string())));
    assert_eq!(d.id, "y");
    assert_eq!(d.signature_fingerprint.as_deref(), Some("FP"));
    let d = d.served_from_cache("y", None);
    assert_eq!(d.signature_fingerprint.as_deref(), Some("FP"));
    let mut d = d;
    let kept = zstore::app_detail::detail_releases(&vec![file("a.msi")], &Vec::new(), "windows", "x86_64");
    d.keep_cached_releases(Some(kept));
    assert_eq!(d.releases.len(), 1);
    let other = zstore::app_detail::detail_releases(&vec![file("b.msi"), file("c.msi")], &Vec::new(), "windows", "x86_64");
    d.keep_cached_releases(Some(other));
    assert_eq!(d.releases[0].name, "a.msi");
}
