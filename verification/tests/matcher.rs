use shire_blocker::matcher::{is_blacklisted, is_blocked, is_whitelisted, remove_http_www};

fn list(entries: &[&str]) -> Vec<String> {
    entries.iter().map(|e| e.to_string()).collect()
}

#[test]
fn test_remove_http_www() {
    let url_with_http = "https://www.example.com".to_string();
    let url_without_http = remove_http_www(url_with_http);
    assert_eq!(url_without_http, "example.com".to_string());

    let url_with_https = "https://example.com".to_string();
    let url_without_https = remove_http_www(url_with_https);
    assert_eq!(url_without_https, "example.com".to_string());

    let url_with_www = "www.example.com".to_string();
    let url_without_www = remove_http_www(url_with_www);
    assert_eq!(url_without_www, "example.com".to_string());
}

#[test]
fn normalize_strips_plain_http_scheme() {
    assert_eq!(remove_http_www("http://www.example.com/a".to_string()), "example.com/a");
    assert_eq!(remove_http_www("http://example.com".to_string()), "example.com");
}

#[test]
fn normalize_leaves_other_text_alone() {
    assert_eq!(remove_http_www("".to_string()), "");
    assert_eq!(remove_http_www("example.com".to_string()), "example.com");
    assert_eq!(remove_http_www("ftp://www.example.com".to_string()), "ftp://www.example.com");
    assert_eq!(remove_http_www("https:/example.com".to_string()), "https:/example.com");
    assert_eq!(remove_http_www("HTTPS://example.com".to_string()), "HTTPS://example.com");
    assert_eq!(remove_http_www("wwwexample.com".to_string()), "wwwexample.com");
    assert_eq!(remove_http_www("https://".to_string()), "");
    assert_eq!(remove_http_www("www.".to_string()), "");
    assert_eq!(remove_http_www("https://müller.de/ä".to_string()), "müller.de/ä");
}

#[test]
fn normalize_strips_exactly_one_scheme_and_one_label() {
    assert_eq!(remove_http_www("https://https://a".to_string()), "https://a");
    assert_eq!(remove_http_www("https://www.www.a".to_string()), "www.a");
    assert_eq!(remove_http_www("www.https://a".to_string()), "https://a");
    assert_eq!(remove_http_www("https://http://a".to_string()), "http://a");
}

#[test]
fn normalize_is_idempotent_on_ordinary_urls() {
    for url in [
        "https://www.example.com",
        "http://example.com/path?q=1",
        "www.example.com",
        "example.com",
        "",
        "https://www.twitter.com/home",
    ] {
        let once = remove_http_www(url.to_string());
        let twice = remove_http_www(once.clone());
        assert_eq!(once, twice);
    }
}

#[test]
fn blacklist_matches_by_normalized_prefix() {
    let blacklist = list(&["twitter.com", "https://www.facebook.com"]);
    assert!(is_blacklisted(&blacklist, "https://www.twitter.com/home"));
    assert!(is_blacklisted(&blacklist, "twitter.com"));
    assert!(is_blacklisted(&blacklist, "http://facebook.com/groups"));
    assert!(!is_blacklisted(&blacklist, "https://example.com/twitter.com"));
    assert!(!is_blacklisted(&blacklist, "twitter.co"));
    assert!(!is_blacklisted(&Vec::new(), "https://www.twitter.com/home"));
}

#[test]
fn whitelist_strips_trailing_wildcards() {
    let whitelist = list(&["youtube.com/results*", "https://www.docs.rs/**"]);
    assert!(is_whitelisted(&whitelist, "https://www.youtube.com/results?search_query=rust"));
    assert!(!is_whitelisted(&whitelist, "https://www.youtube.com/watch?v=1"));
    assert!(is_whitelisted(&whitelist, "docs.rs/serde"));
    assert!(!is_whitelisted(&Vec::new(), "docs.rs/serde"));
    assert!(is_whitelisted(&list(&["*"]), "anything"));
    assert!(!is_whitelisted(&list(&["you*tube"]), "youtube.com"));
}

#[test]
fn unlisted_url_is_allowed_whatever_the_whitelist() {
    let blacklist = list(&["twitter.com"]);
    assert!(!is_blocked(&blacklist, &Vec::new(), "https://example.com"));
    assert!(!is_blocked(&blacklist, &list(&["example.com"]), "https://example.com"));
    assert!(!is_blocked(&blacklist, &list(&["other.org*"]), "https://example.com"));
    assert!(!is_blocked(&Vec::new(), &Vec::new(), "https://www.twitter.com"));
    assert!(!is_blocked(&Vec::new(), &list(&["twitter.com"]), "https://www.twitter.com"));
}

#[test]
fn blacklisted_url_without_whitelist_hit_is_denied() {
    let blacklist = list(&["twitter.com", "facebook.com"]);
    assert!(is_blocked(&blacklist, &Vec::new(), "https://www.twitter.com/home"));
    assert!(is_blocked(&blacklist, &list(&["example.com*"]), "http://facebook.com"));
}

#[test]
fn whitelist_hit_overrides_blacklist_hit() {
    let blacklist = list(&["youtube.com"]);
    let whitelist = list(&["youtube.com/results*"]);
    assert!(is_blocked(&blacklist, &whitelist, "https://www.youtube.com/watch"));
    assert!(!is_blocked(&blacklist, &whitelist, "https://www.youtube.com/results?q=x"));
}

#[test]
fn empty_url_matches_only_empty_patterns() {
    assert!(!is_blocked(&list(&["twitter.com"]), &Vec::new(), ""));
    assert!(is_blocked(&list(&[""]), &Vec::new(), ""));
    assert!(is_blocked(&list(&["https://www."]), &Vec::new(), ""));
    assert!(!is_blocked(&list(&[""]), &list(&["*"]), ""));
}
