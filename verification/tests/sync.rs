use zstore::sync::{
    cache_is_fresh, catalog_location, catalog_source_url, local_catalog_etag, local_fallback_outcome,
    missing_local_catalog, sync_outcome, ttl_seconds, CatalogLocation,
};

#[test]
fn catalog_sources() {
    assert_eq!(catalog_source_url(Some("https://x/c.json"), "d"), "https://x/c.json");
    assert_eq!(catalog_source_url(Some("https://gitmirror.com/c.json"), "d"), "d");
    assert_eq!(catalog_source_url(None, "d"), "d");
    assert_eq!(catalog_location("https://x/c.json"), CatalogLocation::Remote);
    assert_eq!(catalog_location("file:///srv/c.json"), CatalogLocation::Local("/srv/c.json".to_string()));
    assert_eq!(catalog_location("file:///C:/data/c.json"), CatalogLocation::Local("C:/data/c.json".to_string()));
    assert_eq!(catalog_location("../catalog.json"), CatalogLocation::Local("../catalog.json".to_string()));
    assert_eq!(local_catalog_etag(1700000000), "W/\"local-1700000000\"");
    assert_eq!(missing_local_catalog("/x"), "本地收录清单文件不存在: /x");
}

#[test]
fn sync_messages() {
    let r = sync_outcome(Some(25), 3);
    assert!(r.updated);
    assert_eq!(r.message, "成功同步收录清单，当前共 25 个精选应用");
    let r = sync_outcome(None, 3);
    assert!(!r.updated);
    assert_eq!(r.count, 3);
    assert_eq!(r.message, "收录清单已是最新，共 3 个应用");
    assert_eq!(local_fallback_outcome("c.json", 2).message, "远程源未就绪，已自动从本地 c.json 载入 2 款应用（本地开发模式）");
}

#[test]
fn cache_freshness() {
    assert!(cache_is_fresh(None, 0, 1_000_000));
    assert!(!cache_is_fresh(Some(0), 100, 100));
    assert!(cache_is_fresh(Some(60), 100, 159));
    assert!(!cache_is_fresh(Some(60), 100, 160));
    assert!(cache_is_fresh(Some(-1), 0, 1_000_000));
    assert_eq!(ttl_seconds(30), 1800);
}
