use zstore::forge::ForgeType;
use zstore::hosts::{
    clean_host, connected_status, connection_check_url, effective_token, failed_status, find_host_entry,
    forge_type_of_name, is_github_dot_com, is_github_host, new_host_entry, rate_limit_header,
};

#[test]
fn host_names_and_tokens() {
    assert_eq!(forge_type_of_name("Forgejo"), ForgeType::Gitea);
    assert_eq!(forge_type_of_name("codeberg"), ForgeType::Codeberg);
    assert_eq!(forge_type_of_name("GITLAB"), ForgeType::GitLab);
    assert_eq!(forge_type_of_name("anything"), ForgeType::GitHub);
    assert_eq!(clean_host(None), "github.com");
    assert_eq!(clean_host(Some(" Codeberg.ORG ")), "codeberg.org");
    assert!(is_github_host("api.github.com"));
    assert!(is_github_dot_com("GitHub.com"));
    assert_eq!(effective_token(Some(" t "), Some("s".to_string())).as_deref(), Some("t"));
    assert_eq!(effective_token(Some(" "), Some("s".to_string())), None);
    assert_eq!(effective_token(None, Some("s".to_string())).as_deref(), Some("s"));
    assert_eq!(connection_check_url("github.com"), "https://api.github.com/rate_limit");
    assert_eq!(connection_check_url("codeberg.org"), "https://codeberg.org/api/v1/version");
    assert_eq!(rate_limit_header(Some("59")), 59);
    assert_eq!(rate_limit_header(Some("x")), 5000);
    assert_eq!(rate_limit_header(None), 5000);
}

#[test]
fn connection_results_and_entries() {
    let ok = connected_status("github.com".to_string(), Some(10), Some(60));
    assert!(ok.is_connected);
    assert_eq!(ok.message.as_deref(), Some("连接 GitHub API 成功"));
    let bad = failed_status("codeberg.org".to_string(), None, "timeout");
    assert_eq!(bad.message.as_deref(), Some("连接超时或失败: timeout"));
    let bad = failed_status("github.com".to_string(), Some("403 Forbidden"), "");
    assert_eq!(bad.message.as_deref(), Some("HTTP 状态码: 403 Forbidden"));
    let entries = vec![new_host_entry("a.org", None, 1), new_host_entry("GitHub.com", Some("t".to_string()), 2)];
    assert_eq!(find_host_entry(&entries, "github.com"), Some(1));
    assert_eq!(find_host_entry(&entries, "b.org"), None);
    assert_eq!(entries[1].token, "t");
}
