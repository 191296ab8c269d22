use zstore::installer::dirs_or_fallback_with_base;
use zstore::paths::{expand_home_variable, expand_windows_variables, path_form, PathForm};

#[test]
fn directory_settings_are_read() {
    assert!(matches!(path_form("   "), PathForm::Empty));
    assert!(matches!(path_form(" ~ "), PathForm::Home));
    match path_form("~/Downloads") {
        PathForm::BelowHome { pieces, written } => {
            assert_eq!(pieces, vec!["Downloads"]);
            assert_eq!(written, "~/Downloads");
        }
        _ => panic!("expected a path below home"),
    }
    match path_form("~\\a/b") {
        PathForm::BelowHome { pieces, .. } => assert_eq!(pieces, vec!["a", "b"]),
        _ => panic!("expected a path below home"),
    }
    match path_form(" C:\\Custom\\Path ") {
        PathForm::Written(w) => assert_eq!(w, "C:\\Custom\\Path"),
        _ => panic!("expected a written path"),
    }
}

#[test]
fn variables_are_expanded() {
    let vars = vec![
        ("LOCALAPPDATA".to_string(), "C:\\Users\\u\\AppData\\Local".to_string()),
        ("TEMP".to_string(), "C:\\Tmp".to_string()),
    ];
    assert_eq!(
        expand_windows_variables("%LOCALAPPDATA%\\z;%TEMP%;%TEMP%;%APPDATA%", &vars),
        "C:\\Users\\u\\AppData\\Local\\z;C:\\Tmp;C:\\Tmp;%APPDATA%"
    );
    assert_eq!(expand_home_variable("$HOME/apps", Some("/home/u")), "/home/u/apps");
    assert_eq!(expand_home_variable("/opt/$HOME", Some("/home/u")), "/opt/$HOME");
    assert_eq!(expand_home_variable("$HOME/apps", None), "$HOME/apps");
}

#[test]
fn test_expand_env_path_and_portable_dir() {
    match path_form("C:\\Custom\\Path") {
        PathForm::Written(w) => assert_eq!(w, "C:\\Custom\\Path"),
        _ => panic!("expected a written path"),
    }

    let (base, name) = dirs_or_fallback_with_base("test-app", Some("D:\\PortableApps"));
    assert_eq!(base.as_deref(), Some("D:\\PortableApps"));
    assert_eq!(name, "test-app");

    let (base_default, name_default) = dirs_or_fallback_with_base("test-app", None);
    assert!(base_default.is_none());
    assert!(name_default.contains("test-app"));

    // `~/Downloads` and `~\Downloads` name the same directory below home;
    // blank settings fall back to the default download directory.
    for written in ["~/Downloads", "~\\Downloads"] {
        match path_form(written) {
            PathForm::BelowHome { pieces, .. } => assert_eq!(pieces, vec!["Downloads"]),
            _ => panic!("expected a path below home"),
        }
    }
    assert!(matches!(path_form(""), PathForm::Empty));
    assert!(matches!(path_form("   "), PathForm::Empty));
}
