use zstore::settings::{import_skips_installed, parse_u32_chars, watch_target};
use zstore::config::ProjectConfig;
use zstore::settings::{
    default_setting_value, detail_cache_ttl_from_setting, get_default_settings, get_settings, i64_to_string,
    launch_on_startup_change, normalize_detail_cache_ttl, normalize_setting_value, normalize_watch_notify_frequency,
    parse_i64_chars, resolve_active_github_token, watch_frequency_from_setting, SettingsMap,
};

#[test]
fn test_detail_cache_ttl_config_baseline() {
    let cfg = ProjectConfig::default();
    assert_eq!(detail_cache_ttl_from_setting(None, cfg.cache.detail_ttl_minutes), 30);
    assert_eq!(detail_cache_ttl_from_setting(Some("60"), cfg.cache.detail_ttl_minutes), 60);
}

#[test]
fn test_watch_notify_frequency_normalize() {
    assert_eq!(normalize_watch_notify_frequency("daily"), "daily");
    assert_eq!(normalize_watch_notify_frequency("startup"), "startup");
    assert_eq!(normalize_watch_notify_frequency("  DAILY  "), "daily");
    assert_eq!(normalize_watch_notify_frequency("hourly"), "daily");
    assert_eq!(normalize_watch_notify_frequency(""), "daily");

    assert_eq!(watch_frequency_from_setting(None), "daily");
    assert_eq!(watch_frequency_from_setting(Some("startup")), "startup");
    assert_eq!(watch_frequency_from_setting(Some("bogus")), "daily");
}

#[test]
fn ttl_values_outside_the_choices_fall_back() {
    assert_eq!(normalize_detail_cache_ttl(360, 30), 360);
    assert_eq!(normalize_detail_cache_ttl(0, 30), 0);
    assert_eq!(normalize_detail_cache_ttl(45, 30), 30);
    assert_eq!(detail_cache_ttl_from_setting(Some(" 1440 "), 30), 1440);
    assert_eq!(detail_cache_ttl_from_setting(Some("abc"), 30), 30);
    assert_eq!(detail_cache_ttl_from_setting(Some("7"), 30), 30);
}

#[test]
fn integers_read_and_written() {
    let p = |s: &str| parse_i64_chars(&s.chars().collect::<Vec<char>>());
    assert_eq!(p("42"), Some(42));
    assert_eq!(p("-17"), Some(-17));
    assert_eq!(p("+5"), Some(5));
    assert_eq!(p("9223372036854775807"), Some(i64::MAX));
    assert_eq!(p("-9223372036854775808"), Some(i64::MIN));
    assert_eq!(p("9223372036854775808"), None);
    assert_eq!(p("-"), None);
    assert_eq!(p(""), None);
    assert_eq!(p("1 2"), None);
    assert_eq!(i64_to_string(0), "0");
    assert_eq!(i64_to_string(1440), "1440");
    assert_eq!(i64_to_string(-305), "-305");
    assert_eq!(i64_to_string(i64::MIN), "-9223372036854775808");
}

#[test]
fn defaults_and_effective_settings() {
    let cfg = ProjectConfig::default();
    let d = get_default_settings(&cfg);
    assert_eq!(d.get("theme").as_deref(), Some("system"));
    assert_eq!(d.get("detail_cache_ttl_minutes").as_deref(), Some("30"));
    assert_eq!(d.get("github_token").as_deref(), Some(""));
    assert!(d.get("unknown").is_none());
    assert_eq!(d.into_pairs().len(), 11);

    let stored = vec![
        ("theme".to_string(), "dark".to_string()),
        ("active_mirror".to_string(), "   ".to_string()),
        ("catalog_source_url".to_string(), "https://gitmirror.com/x/catalog.json".to_string()),
        ("download_dir".to_string(), "/home/u/zstore_downloads".to_string()),
        ("extra".to_string(), "1".to_string()),
    ];
    let s = get_settings(&stored, &cfg);
    assert_eq!(s.get("theme").as_deref(), Some("dark"));
    assert_eq!(s.get("active_mirror").as_deref(), Some("ghproxy"));
    assert_eq!(s.get("catalog_source_url"), Some(cfg.catalog.default_source_url.clone()));
    assert_eq!(s.get("download_dir").as_deref(), Some("~/Downloads"));
    assert_eq!(s.get("extra").as_deref(), Some("1"));
}

#[test]
fn values_are_cleaned_before_storing() {
    assert_eq!(normalize_setting_value("detail_cache_ttl_minutes", " 60 ", 30), "60");
    assert_eq!(normalize_setting_value("detail_cache_ttl_minutes", "15", 30), "30");
    assert_eq!(normalize_setting_value("detail_cache_ttl_minutes", "soon", 30), "30");
    assert_eq!(normalize_setting_value("watch_notify_frequency", "Startup", 30), "startup");
    assert_eq!(normalize_setting_value("theme", " dark ", 30), " dark ");
    assert_eq!(launch_on_startup_change("launch_on_startup", "1"), Some(true));
    assert_eq!(launch_on_startup_change("launch_on_startup", "yes"), Some(false));
    assert_eq!(launch_on_startup_change("theme", "true"), None);
    let cfg = ProjectConfig::default();
    assert_eq!(default_setting_value("update_frequency", &cfg), "startup");
    assert_eq!(default_setting_value("nope", &cfg), "");
}

#[test]
fn settings_map_keeps_one_value_per_key() {
    let mut m = SettingsMap::new();
    m.insert("a".to_string(), "1".to_string());
    m.insert("b".to_string(), "2".to_string());
    m.insert("a".to_string(), "3".to_string());
    assert_eq!(m.get("a").as_deref(), Some("3"));
    assert_eq!(m.into_pairs().len(), 2);
}

#[test]
fn token_priority() {
    assert_eq!(resolve_active_github_token(Some(" mem "), Some(" o "), Some("p"), Some("h")), (Some("o".to_string()), true));
    assert_eq!(resolve_active_github_token(Some(" mem "), Some("  "), Some("p"), Some("h")), (Some("mem".to_string()), false));
    assert_eq!(resolve_active_github_token(Some("  "), Some(" o "), Some("p"), None), (Some("o".to_string()), true));
    assert_eq!(resolve_active_github_token(None, None, Some("p"), Some("h")), (Some("p".to_string()), false));
    assert_eq!(resolve_active_github_token(None, Some(""), None, Some(" h ")), (Some("h".to_string()), false));
    assert_eq!(resolve_active_github_token(None, None, None, Some("  ")), (None, false));
}

#[test]
fn imports_and_watch_targets() {
    let installed = vec!["vlc".to_string()];
    assert!(import_skips_installed(&installed, "VLC"));
    assert!(!import_skips_installed(&installed, "obs"));
    assert_eq!(watch_target(" obs ").unwrap(), "obs");
    assert_eq!(watch_target(" ").unwrap_err(), "应用 ID 不能为空");
}

#[test]
fn u32_numbers() {
    let p = |s: &str| parse_u32_chars(&s.chars().collect::<Vec<char>>());
    assert_eq!(p("4294967295"), Some(u32::MAX));
    assert_eq!(p("4294967296"), None);
    assert_eq!(p("+7"), Some(7));
    assert_eq!(p("-7"), None);
}

#[test]
fn startup_entry() {
    assert_eq!(zstore::settings::sync_launch_on_startup(true, "C:\\z.exe"), Some("\"C:\\z.exe\"".to_string()));
    assert_eq!(zstore::settings::sync_launch_on_startup(false, "C:\\z.exe"), None);
}

#[test]
fn saved_settings_are_stable() {
    for (k, v) in [
        ("detail_cache_ttl_minutes", " 60 "),
        ("detail_cache_ttl_minutes", "7"),
        ("detail_cache_ttl_minutes", "abc"),
        ("watch_notify_frequency", "  STARTUP "),
        ("watch_notify_frequency", "weekly"),
        ("theme", " dark "),
    ] {
        let once = normalize_setting_value(k, v, 30);
        assert_eq!(normalize_setting_value(k, &once, 30), once);
    }
    assert_eq!(normalize_setting_value("detail_cache_ttl_minutes", "7", 30), "30");
    assert_eq!(normalize_setting_value("watch_notify_frequency", "  STARTUP ", 30), "startup");
}
