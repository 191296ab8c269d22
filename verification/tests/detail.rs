use zstore::detail::{
    cached_detail_complete, checksum_for, default_readme, detail_icon, is_checksum_asset, latest_count,
    latest_homepage, latest_license, missing_cache_error, parse_checksums, placeholder_release, plan_release_source,
    should_reuse_cached_readme,
};
use zstore::detail::ReleaseResponse::{Failed, Fresh, NotModified};
use zstore::detail::ReleaseSource::{
    CachedPayload, FreshRelease, MissingCache, Placeholder, ReuseCachedDetail, StaleDetail,
};

#[test]
fn where_release_data_comes_from() {
    assert_eq!(plan_release_source(NotModified, true, true, true), ReuseCachedDetail);
    assert_eq!(plan_release_source(NotModified, true, false, true), CachedPayload);
    assert_eq!(plan_release_source(NotModified, false, false, false), MissingCache);
    assert_eq!(plan_release_source(Fresh, true, true, true), FreshRelease);
    assert_eq!(plan_release_source(Failed, true, false, true), StaleDetail);
    assert_eq!(plan_release_source(Failed, false, false, true), CachedPayload);
    assert_eq!(plan_release_source(Failed, false, false, false), Placeholder);
    assert!(cached_detail_complete(2, "# x"));
    assert!(!cached_detail_complete(0, "# x"));
    assert!(!cached_detail_complete(3, "  \n"));
    assert_eq!(missing_cache_error(), "304 响应但本地未找到缓存数据");
}

#[test]
fn offline_placeholder_and_readme() {
    let (tag, body) = placeholder_release(None);
    assert_eq!(tag, "v1.0.0");
    assert_eq!(body, "离线模式，暂无法直连获取 GitHub Release 变更日志。");
    assert_eq!(placeholder_release(Some("v2.3")).0, "v2.3");
    assert_eq!(default_readme("VLC", "player"), "# VLC\n\nplayer");
    assert!(should_reuse_cached_readme(Some("v1"), Some("text"), "v1"));
    assert!(!should_reuse_cached_readme(Some("v1"), Some("text"), "v2"));
    assert!(!should_reuse_cached_readme(Some("v1"), Some(" "), "v1"));
    assert!(!should_reuse_cached_readme(None, None, "v1"));
}

#[test]
fn repository_figures_win_over_catalog() {
    assert_eq!(latest_count(Some(5), Some(9)), 5);
    assert_eq!(latest_count(None, Some(9)), 9);
    assert_eq!(latest_count(None, None), 0);
    assert_eq!(latest_license(None, Some("GPL".to_string())), "GPL");
    assert_eq!(latest_license(None, None), "FLOSS");
    assert_eq!(latest_homepage(Some(" example.org ".to_string()), None).as_deref(), Some("https://example.org"));
    assert_eq!(latest_homepage(Some(" ".to_string()), Some("http://a.b".to_string())).as_deref(), Some("http://a.b"));
    assert_eq!(latest_homepage(None, Some("".to_string())), None);
    assert_eq!(detail_icon("🖥️".to_string(), None, "o"), "https://github.com/o.png");
    assert_eq!(detail_icon("🖥️".to_string(), Some("L".to_string()), "o"), "L");
    assert_eq!(detail_icon("https://x/i.png".to_string(), Some("L".to_string()), "o"), "https://x/i.png");
}

#[test]
fn checksum_files() {
    assert!(is_checksum_asset("SHA256SUMS.txt"));
    assert!(is_checksum_asset("app-checksums.txt"));
    assert!(is_checksum_asset("app.zip.sha256"));
    assert!(!is_checksum_asset("app.zip"));
    let h1 = "A".repeat(64);
    let h2 = "b".repeat(64);
    let text = format!("{} *app.zip\r\nshort file\n{}  other.tar.gz\n\n{} app.zip\n", h1, h2, h2);
    let entries = parse_checksums(&text);
    assert_eq!(entries.len(), 3);
    assert_eq!(entries[0], ("app.zip".to_string(), "a".repeat(64)));
    assert_eq!(checksum_for(&entries, "app.zip"), Some(h2.clone()));
    assert_eq!(checksum_for(&entries, "other.tar.gz"), Some(h2));
    assert_eq!(checksum_for(&entries, "missing"), None);
}
