use chordle::cache::Cache;

#[test]
fn empty_cache_holds_no_tag() {
    let cache = Cache::new();
    assert_eq!(cache.get_etag("styles.css"), None);
    assert!(!cache.etag_matches("styles.css", ""));
}

#[test]
fn a_tag_that_was_set_is_found() {
    let mut cache = Cache::new();
    cache.set_etag("styles.css", "abc123");
    assert_eq!(cache.get_etag("styles.css"), Some("abc123"));
    assert!(cache.etag_matches("styles.css", "abc123"));
    assert!(!cache.etag_matches("styles.css", "abc124"));
    assert!(!cache.etag_matches("undo.svg", "abc123"));
    assert_eq!(cache.get_etag("undo.svg"), None);
}

#[test]
fn setting_a_tag_again_replaces_it() {
    let mut cache = Cache::new();
    cache.set_etag("styles.css", "old");
    cache.set_etag("undo.svg", "icon");
    cache.set_etag("styles.css", "new");
    assert_eq!(cache.get_etag("styles.css"), Some("new"));
    assert_eq!(cache.get_etag("undo.svg"), Some("icon"));
    assert!(!cache.etag_matches("styles.css", "old"));
}

#[test]
fn keys_are_told_apart_exactly() {
    let mut cache = Cache::new();
    cache.set_etag("favicon/IconQuery { s: Some(16), ico: Some(true) }", "small");
    cache.set_etag("favicon/IconQuery { s: Some(32), ico: Some(true) }", "large");
    assert_eq!(cache.get_etag("favicon/IconQuery { s: Some(16), ico: Some(true) }"), Some("small"));
    assert_eq!(cache.get_etag("favicon/IconQuery { s: Some(32), ico: Some(true) }"), Some("large"));
    assert_eq!(cache.get_etag("favicon/"), None);
    assert_eq!(cache.get_etag(""), None);
}

#[test]
fn a_copy_of_the_cache_is_its_own() {
    let mut cache = Cache::new();
    cache.set_etag("a", "1");
    let mut copy = cache.clone();
    copy.set_etag("a", "2");
    assert_eq!(cache.get_etag("a"), Some("1"));
    assert_eq!(copy.get_etag("a"), Some("2"));
}
