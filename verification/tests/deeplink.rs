use zstore::deeplink::{DeepLinkAction, DeepLinkParser};

#[test]
fn test_parse_app_detail() {
    let res = DeepLinkParser::parse("zstore://app/rustdesk").unwrap();
    assert_eq!(res, DeepLinkAction::AppDetail { app_id: "rustdesk".to_string() });

    let direct = DeepLinkParser::parse("zstore://localsend/localsend").unwrap();
    assert_eq!(direct, DeepLinkAction::AppDetail { app_id: "localsend/localsend".to_string() });
}

#[test]
fn test_parse_install_app() {
    let res = DeepLinkParser::parse("zstore://install/vlc").unwrap();
    assert_eq!(res, DeepLinkAction::InstallApp { app_id: "vlc".to_string() });
}

#[test]
fn test_parse_search() {
    let res = DeepLinkParser::parse("zstore://search?q=video+editor").unwrap();
    assert_eq!(res, DeepLinkAction::Search { query: "video editor".to_string() });
}

#[test]
fn test_parse_developer() {
    let res = DeepLinkParser::parse("zstore://developer/rustdesk").unwrap();
    assert_eq!(res, DeepLinkAction::DeveloperProfile { owner: "rustdesk".to_string() });
}

#[test]
fn test_parse_view() {
    let res = DeepLinkParser::parse("zstore://view/settings").unwrap();
    assert_eq!(res, DeepLinkAction::OpenView { view: "settings".to_string() });
}

#[test]
fn test_parse_encoded_and_utf8() {
    let res = DeepLinkParser::parse("zstore://search?q=%E6%92%AD%E6%94%BE%E5%99%A8").unwrap();
    assert_eq!(res, DeepLinkAction::Search { query: "播放器".to_string() });

    let res2 = DeepLinkParser::parse("zstore://app/localsend%2Flocalsend").unwrap();
    assert_eq!(res2, DeepLinkAction::AppDetail { app_id: "localsend/localsend".to_string() });
}

#[test]
fn test_parse_invalid() {
    assert!(DeepLinkParser::parse("https://google.com").is_none());
    assert!(DeepLinkParser::parse("").is_none());
    assert!(DeepLinkParser::parse("zstore://app").is_none());
    assert!(DeepLinkParser::parse("zstore://app/").is_none());
    assert!(DeepLinkParser::parse("zstore://install").is_none());
    assert!(DeepLinkParser::parse("zstore://install/").is_none());
    assert!(DeepLinkParser::parse("zstore://developer").is_none());
    assert!(DeepLinkParser::parse("zstore://developer/").is_none());
}

#[test]
fn scheme_is_case_insensitive() {
    let res = DeepLinkParser::parse("ZStore://install/vlc").unwrap();
    assert_eq!(res, DeepLinkAction::InstallApp { app_id: "vlc".to_string() });
}

#[test]
fn protocol_registration_values() {
    let v = zstore::deeplink::register_windows_protocol("C:\\Apps\\zstore.exe");
    assert_eq!(v.len(), 3);
    assert_eq!(v[0], ("Software\\Classes\\zstore".to_string(), String::new(), "URL:ZStore Protocol".to_string()));
    assert_eq!(v[1], ("Software\\Classes\\zstore".to_string(), "URL Protocol".to_string(), String::new()));
    assert_eq!(v[2].0, "Software\\Classes\\zstore\\shell\\open\\command");
    assert_eq!(v[2].2, "\"C:\\Apps\\zstore.exe\" \"%1\"");
}

#[test]
fn command_line_links_and_browser_links() {
    let args = vec!["--flag".to_string(), "ZStore://app/vlc".to_string(), "zstore://x".to_string()];
    assert_eq!(zstore::deeplink::cli_deep_link(&args), Some(1));
    assert_eq!(zstore::deeplink::cli_deep_link(&vec!["a".to_string()]), None);
    assert_eq!(zstore::deeplink::openable_url("  https://github.com/x "), Ok("https://github.com/x".to_string()));
    assert_eq!(
        zstore::deeplink::openable_url("file:///etc/passwd"),
        Err("仅支持打开 http/https 协议的安全链接".to_string())
    );
}

#[test]
fn app_links_open_their_application() {
    for id in ["rustdesk", "obs-studio", "a.b_c~1", "X"] {
        let link = format!("zstore://app/{}", id);
        assert_eq!(DeepLinkParser::parse(&link), Some(DeepLinkAction::AppDetail { app_id: id.to_string() }));
    }
}
