use zstore::catalog::{catalog_entries, identifiers_once, CatalogItem, CatalogService};

fn item(id: &str, name: &str, owner: &str, repo: &str, category: &str, stars: u64) -> CatalogItem {
    CatalogItem {
        id: id.to_string(),
        name: name.to_string(),
        chinese_name: None,
        owner: owner.to_string(),
        repo: repo.to_string(),
        icon: "🖥️".to_string(),
        icon_bg: "#000".to_string(),
        description: String::new(),
        category: category.to_string(),
        category_name: category.to_uppercase(),
        aliases: Vec::new(),
        default_version: "v1.0.0".to_string(),
        license: "MIT".to_string(),
        stars,
        forks: 0,
        is_verified: true,
        publisher_fingerprint: None,
        homepage: None,
        identifiers: Vec::new(),
        executables: Vec::new(),
        install_dirs: Vec::new(),
        search_subdirs: Vec::new(),
        publishers: Vec::new(),
        platforms: Vec::new(),
    }
}

fn sample_catalog() -> CatalogService {
    let mut rustdesk = item("rustdesk", "RustDesk", "rustdesk", "rustdesk", "network", 70000);
    rustdesk.chinese_name = Some("RustDesk 远程桌面".to_string());
    rustdesk.description = "Open source remote desktop".to_string();
    rustdesk.platforms = vec![
        "windows".to_string(),
        "macos".to_string(),
        "linux".to_string(),
        "android".to_string(),
        "ios".to_string(),
    ];
    let mut vlc = item("vlc", "VLC media player", "videolan", "vlc", "media", 15000);
    vlc.aliases = vec!["VideoLAN".to_string()];
    let obs = item("obs", "OBS Studio", "obsproject", "obs-studio", "media", 60000);
    let localsend = item("localsend", "LocalSend", "localsend", "localsend", "network", 50000);
    CatalogService::new(vec![rustdesk, vlc, obs, localsend])
}

#[test]
fn github_test_catalog_load_and_search() {
    let cat = sample_catalog();
    assert_eq!(cat.get_catalog_count(), 4);

    let res = cat.search_apps("rustdesk");
    assert!(!res.is_empty());
    assert_eq!(res[0].id, "rustdesk");

    let res_zh = cat.search_apps("远程桌面");
    assert!(!res_zh.is_empty());
    assert_eq!(res_zh[0].id, "rustdesk");
}

#[test]
fn tests_test_catalog_load_and_search() {
    github_test_catalog_load_and_search();
}

#[test]
fn github_test_category_filter() {
    let cat = sample_catalog();
    let media_apps = cat.filter_by_category("media").unwrap();
    assert!(media_apps.iter().any(|a| a.id == "vlc"));
}

#[test]
fn tests_test_category_filter() {
    github_test_category_filter();
}

#[test]
fn test_catalog_platforms_loading_and_mapping() {
    let cat = sample_catalog();
    let rustdesk = cat.get_catalog_item("rustdesk").expect("rustdesk exists in catalog");
    for p in ["windows", "android", "macos", "linux", "ios"] {
        assert!(rustdesk.platforms.contains(&p.to_string()));
    }
    let summary = rustdesk.to_summary();
    assert_eq!(summary.platforms, rustdesk.platforms);

    let vlc = cat.get_catalog_item("VideoLAN/VLC").unwrap();
    assert_eq!(vlc.to_summary().platforms, vec!["windows".to_string()]);
}

#[test]
fn blank_query_lists_everything_by_stars() {
    let cat = sample_catalog();
    let all = cat.search_apps("   ");
    let ids: Vec<&str> = all.iter().map(|s| s.id.as_str()).collect();
    assert_eq!(ids, vec!["rustdesk", "obs", "localsend", "vlc"]);
}

#[test]
fn query_naming_a_category_lists_it() {
    let cat = sample_catalog();
    let res = cat.search_apps("  MEDIA ");
    let ids: Vec<&str> = res.iter().map(|s| s.id.as_str()).collect();
    assert_eq!(ids, vec!["obs", "vlc"]);
    assert!(cat.filter_by_category("games").is_none());
}

#[test]
fn search_ranks_by_score_then_stars() {
    let cat = sample_catalog();
    // "local" is a name prefix of LocalSend (60) and nothing else.
    let res = cat.search_apps("local");
    assert_eq!(res.len(), 1);
    assert_eq!(res[0].id, "localsend");
    // an alias match
    let res = cat.search_apps("videolan");
    assert_eq!(res[0].id, "vlc");
    // a description match
    let res = cat.search_apps("remote");
    assert_eq!(res[0].id, "rustdesk");
    assert!(cat.search_apps("zzzz").is_empty());
}

#[test]
fn summary_icon_falls_back_to_avatar() {
    let cat = sample_catalog();
    let s = cat.get_catalog_item("obs").unwrap().to_summary();
    assert_eq!(s.icon, "https://github.com/obsproject.png");
    assert_eq!(s.forge.as_deref(), Some("github"));
    assert_eq!(s.forge_host.as_deref(), Some("github.com"));
}

#[test]
fn stats_update_refreshes_one_entry() {
    let mut cat = sample_catalog();
    cat.update_catalog_item_stats("OBSPROJECT/obs-studio", Some(1), None, Some("v31.0.0"));
    let obs = cat.get_catalog_item("obs").unwrap();
    assert_eq!(obs.stars, 1);
    assert_eq!(obs.forks, 0);
    assert_eq!(obs.default_version, "v31.0.0");
    cat.update_catalog_item_stats("obs", None, Some(7), Some("   "));
    let obs = cat.get_catalog_item("obs").unwrap();
    assert_eq!(obs.forks, 7);
    assert_eq!(obs.default_version, "v31.0.0");
    cat.update_catalog_item_stats("missing", Some(9), Some(9), None);
    assert_eq!(cat.get_catalog_count(), 4);
}

#[test]
fn repository_coordinates() {
    let cat = sample_catalog();
    let c = cat.get_repo_coordinates(" VLC ").unwrap();
    assert_eq!(c.owner, "videolan");
    assert_eq!(c.repo, "vlc");
    let c = cat.get_repo_coordinates("someone/ tool ").unwrap();
    assert_eq!(c.owner, "someone");
    assert_eq!(c.repo, "tool");
    assert_eq!(c.name, "tool");
    assert_eq!(c.description, "GitHub 社区开源项目");
    assert_eq!(c.icon, "📦");
    assert_eq!(cat.get_repo_coordinates("a/b/c").unwrap_err(), "未识别的仓库坐标: a/b/c");
    assert_eq!(cat.get_repo_coordinates("nothing").unwrap_err(), "收录库中不存在该应用: nothing");
    let e = cat.get_endpoints("localsend").unwrap();
    assert_eq!((e.0.as_str(), e.1.as_str(), e.2.as_str()), ("localsend", "localsend", "LocalSend"));
}

#[test]
fn identifiers_per_platform() {
    let mut it = item("x", "X", "o", "r", "c", 1);
    it.identifiers = vec![("linux".to_string(), vec!["x-bin".to_string()]), ("windows".to_string(), Vec::new())];
    it.executables = vec!["x.exe".to_string()];
    assert_eq!(it.get_identifiers("linux"), vec!["x-bin".to_string()]);
    assert_eq!(it.get_identifiers("windows"), vec!["x.exe".to_string()]);
    assert_eq!(it.get_windows_executables(), vec!["x.exe".to_string()]);
    assert!(it.get_identifiers("macos").is_empty());
}

#[test]
fn a_later_platform_entry_replaces_an_earlier_one() {
    let pair = |k: &str, v: &str| (k.to_string(), vec![v.to_string()]);
    let ids = vec![pair("windows", "a.exe"), pair("linux", "a"), pair("windows", "b.exe")];
    let once = identifiers_once(&ids);
    assert_eq!(once, vec![pair("linux", "a"), pair("windows", "b.exe")]);
    let keys: std::collections::BTreeSet<&String> = once.iter().map(|p| &p.0).collect();
    assert_eq!(keys.len(), once.len());

    let mut it = item("a", "A", "o", "a", "dev", 1);
    it.identifiers = ids;
    let entries = catalog_entries(&vec![it]);
    assert_eq!(entries[0].identifiers.len(), 2);
    let cat = CatalogService::new(entries);
    assert_eq!(cat.get_catalog_item("a").unwrap().get_identifiers("windows"), vec!["b.exe".to_string()]);
}
