use zstore::config::{CatalogConfig, ProjectConfig};

#[test]
fn test_embedded_config_parses_successfully() {
    let conf = ProjectConfig::default();
    assert_eq!(conf.cache.detail_ttl_minutes, 30);
    assert_eq!(conf.network.connect_timeout_seconds, 15);
    assert_eq!(conf.network.download_timeout_seconds, 300);
    assert_eq!(conf.network.chunk_timeout_seconds, 30);
    assert_eq!(conf.network.api_timeout_seconds, 12);
    assert_eq!(conf.network.ping_timeout_ms, 4000);
    assert_eq!(conf.limits.search_history_limit, 20);
    assert_eq!(conf.limits.view_history_limit, 30);
    assert_eq!(conf.limits.online_search_page_size, 12);
    assert_eq!(conf.oauth.default_client_id, "Ov23lik0b7fDGMLTiOYH");
    assert_eq!(conf.catalog.local_path, "../catalog.json");
    assert!(!conf.catalog.default_source_url.is_empty());
}

#[test]
fn catalog_path_candidates() {
    let c = CatalogConfig { local_path: "../catalog.json".to_string(), default_source_url: String::new() };
    assert_eq!(c.local_path_candidates(), vec!["../catalog.json", "catalog.json", "../../catalog.json"]);
    let c = CatalogConfig { local_path: "catalog.json".to_string(), default_source_url: String::new() };
    assert_eq!(c.local_path_candidates(), vec!["catalog.json", "../catalog.json"]);
    let c = CatalogConfig { local_path: "/srv/catalog.json".to_string(), default_source_url: String::new() };
    assert_eq!(c.local_path_candidates(), vec!["/srv/catalog.json"]);
}

#[test]
fn first_existing_candidate_is_the_catalog() {
    let c = CatalogConfig { local_path: "../catalog.json".to_string(), default_source_url: String::new() };
    assert_eq!(c.resolve_local_path(&vec![false, true, true]), Some("catalog.json".to_string()));
    assert_eq!(c.resolve_local_path(&vec![true, true, true]), Some("../catalog.json".to_string()));
    assert_eq!(c.resolve_local_path(&vec![false, false, true]), Some("../../catalog.json".to_string()));
    assert_eq!(c.resolve_local_path(&vec![false, false, false]), None);
    assert_eq!(c.resolve_local_path(&vec![]), None);
}
