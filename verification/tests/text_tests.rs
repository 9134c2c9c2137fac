use wallet_config::text::{contains_str, find_str, replace_str, substring};

#[test]
fn contains_finds_substrings() {
    assert!(contains_str("ssl://electrum.blockstream.info:60002", "electrum"));
    assert!(contains_str("abc", ""));
    assert!(!contains_str("abc", "abcd"));
    assert!(!contains_str("http://node.local", "electrum"));
}

#[test]
fn find_returns_the_first_occurrence() {
    assert_eq!(find_str("a?auth=b?auth=c", "?auth="), Some(1));
    assert_eq!(find_str("abc", "d"), None);
    assert_eq!(find_str("alice:se:cret", ":"), Some(5));
}

#[test]
fn replace_rewrites_every_occurrence() {
    assert_eq!(replace_str("wpkh(key/*)", "/*", "/0/*"), "wpkh(key/0/*)");
    assert_eq!(replace_str("a/*b/*", "/*", "/1/*"), "a/1/*b/1/*");
    assert_eq!(replace_str("untouched", "/*", "/0/*"), "untouched");
}

#[test]
fn substring_extracts_a_character_range() {
    assert_eq!(substring("http://x?auth=u:p", 0, 8), "http://x");
    assert_eq!(substring("abc", 3, 3), "");
}
