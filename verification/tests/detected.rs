use zstore::detected::{
    add_to_detected_cache, invalidate_detected_app_ids_cache, remove_from_detected_cache, DetectedIdsCache,
};

#[test]
fn detected_ids_expire_and_can_be_forced() {
    let mut c = DetectedIdsCache::new();
    assert!(c.fresh_ids(0, false).is_none());
    c.store(1000, vec!["vlc".to_string()]);
    assert_eq!(c.fresh_ids(1119, false), Some(vec!["vlc".to_string()]));
    assert!(c.fresh_ids(1120, false).is_none());
    assert!(c.fresh_ids(1000, true).is_none());
    assert_eq!(c.fresh_ids(10, false), Some(vec!["vlc".to_string()]));
}

#[test]
fn add_and_remove_ignore_ascii_case() {
    let mut c = DetectedIdsCache::new();
    add_to_detected_cache(&mut c, "vlc");
    assert!(c.fresh_ids(0, false).is_none());

    c.store(0, vec!["VLC".to_string(), "obs".to_string()]);
    add_to_detected_cache(&mut c, "vlc");
    assert_eq!(c.fresh_ids(0, false).unwrap().len(), 2);
    add_to_detected_cache(&mut c, "rustdesk");
    add_to_detected_cache(&mut c, "RustDesk");
    assert_eq!(c.fresh_ids(0, false).unwrap(), vec!["VLC".to_string(), "obs".to_string(), "rustdesk".to_string()]);
    remove_from_detected_cache(&mut c, "Vlc");
    assert_eq!(c.fresh_ids(0, false).unwrap(), vec!["obs".to_string(), "rustdesk".to_string()]);
    invalidate_detected_app_ids_cache(&mut c);
    assert!(c.fresh_ids(0, false).is_none());
}
