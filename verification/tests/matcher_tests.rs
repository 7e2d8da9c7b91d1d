use adblocker::extract_domain;
use adblocker::AdBlocker;

#[test]
fn extracts_domain_with_https_scheme() {
    assert_eq!(extract_domain("https://example.com/path"), "example.com");
}

#[test]
fn extracts_domain_with_http_scheme_and_no_path() {
    assert_eq!(extract_domain("http://example.com"), "example.com");
}

#[test]
fn extracts_domain_without_scheme() {
    assert_eq!(extract_domain("example.com/x"), "example.com");
}

#[test]
fn extracts_whole_remainder_without_slash() {
    assert_eq!(extract_domain("example.com"), "example.com");
}

#[test]
fn extracts_empty_domain_from_bare_scheme() {
    assert_eq!(extract_domain("http://"), "");
}

#[test]
fn empty_matcher_allows_everything() {
    let m = AdBlocker::new();
    assert!(!m.should_block_url("http://ads.example.com/track"));
    assert!(!m.should_block_url(""));
}

#[test]
fn exact_rule_blocks_the_url_it_names() {
    let mut m = AdBlocker::new();
    m.add_filter_rule("http://ads.net/banner");
    assert!(m.should_block_url("http://ads.net/banner"));
    assert!(!m.should_block_url("http://ads.net/banner2"));
}

#[test]
fn adding_a_filter_rule_twice_is_idempotent() {
    let mut once = AdBlocker::new();
    once.add_filter_rule("http://dup.com/a");
    let mut twice = AdBlocker::new();
    twice.add_filter_rule("http://dup.com/a");
    twice.add_filter_rule("http://dup.com/a");
    for url in ["http://dup.com/a", "http://dup.com/b", "other"] {
        assert_eq!(once.should_block_url(url), twice.should_block_url(url));
    }
}

#[test]
fn domain_rule_overwrite_scenario() {
    let mut m = AdBlocker::new();
    assert!(!m.should_block_url("http://ads.example.com/track"));
    m.add_domain_rule("ads.example.com", true);
    assert!(m.should_block_url("http://ads.example.com/track"));
    m.add_domain_rule("ads.example.com", false);
    assert!(!m.should_block_url("http://ads.example.com/track"));
}

#[test]
fn domain_allow_overrides_patterns_but_not_exact_entries() {
    let mut m = AdBlocker::new();
    m.add_filter_rule("http://a.com/x");
    m.add_regex_rule("a\\.com");
    m.add_domain_rule("a.com", false);
    assert!(m.should_block_url("http://a.com/x"));
    assert!(!m.should_block_url("http://a.com/y"));
}

#[test]
fn invalid_pattern_is_discarded_silently() {
    let mut m = AdBlocker::new();
    m.add_regex_rule("[");
    assert!(!m.should_block_url("http://x.com/["));
    m.add_regex_rule("track");
    assert!(m.should_block_url("http://x.com/track"));
    assert!(!m.should_block_url("http://x.com/other"));
}

#[test]
fn pattern_matches_structurally_not_literally() {
    let mut m = AdBlocker::new();
    m.add_regex_rule("\\.exe$");
    assert!(m.should_block_url("http://x.com/file.exe"));
    assert!(!m.should_block_url("http://x.com/file.txt"));
    assert!(!m.should_block_url("http://x.com/file.exe.html"));
}

#[test]
fn bulk_load_applies_all_three_rule_kinds() {
    let mut m = AdBlocker::new();
    let doc = "{\"filter_rules\":[\"http://bad.com/x\"],\"regex_rules\":[\"\\\\.exe$\"],\"domain_rules\":{\"evil.net\":true}}";
    assert!(m.load_rules_from_json(doc));
    assert!(m.should_block_url("http://bad.com/x"));
    assert!(m.should_block_url("http://x.com/file.exe"));
    assert!(m.should_block_url("http://evil.net/"));
    assert!(!m.should_block_url("http://safe.com/"));
}

#[test]
fn bulk_load_keeps_invalid_patterns_out() {
    let mut m = AdBlocker::new();
    let doc = "{\"filter_rules\":[],\"regex_rules\":[\"[\",\"ads\"],\"domain_rules\":{}}";
    assert!(m.load_rules_from_json(doc));
    assert!(m.should_block_url("http://x.com/ads"));
    assert!(!m.should_block_url("http://x.com/["));
}

#[test]
fn malformed_document_loads_nothing() {
    let mut m = AdBlocker::new();
    assert!(!m.load_rules_from_json("{not valid json"));
    assert!(!m.should_block_url("http://anything.com/"));
}

#[test]
fn document_missing_a_field_fails() {
    let mut m = AdBlocker::new();
    assert!(!m.load_rules_from_json("{\"filter_rules\":[],\"regex_rules\":[]}"));
}

#[test]
fn document_with_wrong_field_type_fails() {
    let mut m = AdBlocker::new();
    let doc = "{\"filter_rules\":\"x\",\"regex_rules\":[],\"domain_rules\":{}}";
    assert!(!m.load_rules_from_json(doc));
    assert!(!m.should_block_url("x"));
}
