use zstore::models::UpdateRule;
use zstore::watch::{decide_watch_action, excluded_by_rule, release_fallback, rule_for, WatchAction};

#[test]
fn watched_application_decisions() {
    assert_eq!(decide_watch_action(true, Some("v2"), Some("v1"), "startup", None, 0), WatchAction::Skip);
    assert_eq!(decide_watch_action(false, None, Some("v1"), "startup", None, 0), WatchAction::Skip);
    assert_eq!(decide_watch_action(false, Some("  "), Some("v1"), "startup", None, 0), WatchAction::Skip);
    assert_eq!(decide_watch_action(false, Some(" v2 "), None, "daily", None, 0), WatchAction::SetBaseline("v2".to_string()));
    assert_eq!(decide_watch_action(false, Some("v1"), Some("v1"), "startup", None, 0), WatchAction::Skip);
    assert_eq!(decide_watch_action(false, Some("v2"), Some("v1"), "startup", Some(100), 101), WatchAction::Notify("v2".to_string()));
    assert_eq!(decide_watch_action(false, Some("v2"), Some("v1"), "daily", Some(100), 101), WatchAction::Skip);
    assert_eq!(decide_watch_action(false, Some("v2"), Some("v1"), "daily", Some(100), 86500), WatchAction::Notify("v2".to_string()));
    assert_eq!(decide_watch_action(false, Some("v2"), Some("v1"), "daily", None, 5), WatchAction::Notify("v2".to_string()));
}

#[test]
fn rules_and_fallbacks() {
    let r = UpdateRule { app_id: "a".to_string(), skipped_version: None, is_frozen: true, is_hidden: false, updated_at: 0 };
    assert!(excluded_by_rule(Some(&r)));
    assert!(!excluded_by_rule(None));
    assert_eq!(release_fallback(Some(("v1".to_string(), "log".to_string())), None, true), Ok(("v1".to_string(), "log".to_string())));
    assert_eq!(release_fallback(None, Some("v3".to_string()), false), Ok(("v3".to_string(), String::new())));
    assert_eq!(release_fallback(None, None, true), Err("304 响应但未能提取到有效版本信息".to_string()));
    assert_eq!(release_fallback(None, None, false), Err("检查更新网络不可达且无本地缓存".to_string()));
}

#[test]
fn rule_lookup_ignores_case_and_keeps_the_last() {
    let rule = |id: &str, frozen: bool| UpdateRule {
        app_id: id.to_string(),
        skipped_version: None,
        is_frozen: frozen,
        is_hidden: false,
        updated_at: 0,
    };
    let rules = vec![rule("Owner/App", true), rule("other/app", false), rule("owner/APP", false)];
    assert_eq!(rule_for(&rules, "OWNER/app"), Some(2));
    assert_eq!(rule_for(&rules, "other/App"), Some(1));
    assert_eq!(rule_for(&rules, "missing/app"), None);
    assert_eq!(rule_for(&Vec::new(), "owner/app"), None);
}
