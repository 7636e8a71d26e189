use config_backup::denylist::is_denied;
use config_backup::text::{contains_substr, str_eq, trim_str};

fn terms(list: &[&str]) -> Vec<String> {
    let mut v: Vec<String> = Vec::new();
    for t in list {
        v.push(String::from(*t));
    }
    v
}

#[test]
fn denies_exact_directory_name() {
    let t = terms(&["discord", "cache"]);
    assert!(is_denied("discord/data.db", &t));
}

#[test]
fn denies_substring_inside_a_segment() {
    // The match need not align with a path-segment boundary.
    let t = terms(&["cache"]);
    assert!(is_denied("memcached-config/settings.ini", &t));
}

#[test]
fn denies_case_insensitively() {
    let t = terms(&["discord"]);
    assert!(is_denied("Discord/Data.db", &t));
    assert!(is_denied("apps/DISCORD/cfg", &t));
}

#[test]
fn keeps_unrelated_paths() {
    let t = terms(&["discord", "cache"]);
    assert!(!is_denied("app/settings.json", &t));
}

#[test]
fn empty_term_denies_everything() {
    let t = terms(&[""]);
    assert!(is_denied("anything/at/all", &t));
    assert!(is_denied("", &t));
}

#[test]
fn empty_denylist_keeps_everything() {
    let t = terms(&[]);
    assert!(!is_denied("discord/data.db", &t));
}

#[test]
fn substring_search_finds_needle() {
    assert!(contains_substr("hello world", "lo wo"));
    assert!(contains_substr("hello", "hello"));
    assert!(contains_substr("hello", ""));
    assert!(!contains_substr("hello", "world"));
    assert!(!contains_substr("", "x"));
}

#[test]
fn string_equality_compares_characters() {
    assert!(str_eq("origin", "origin"));
    assert!(!str_eq("origin", "origin "));
    assert!(!str_eq("origin", "origiN"));
}

#[test]
fn trim_strips_ascii_whitespace() {
    assert_eq!(trim_str("  origin \t"), "origin");
    assert_eq!(trim_str("\r\norigin\r\n"), "origin");
    assert_eq!(trim_str("origin"), "origin");
    assert_eq!(trim_str(" \t "), "");
    assert_eq!(trim_str("in the middle stays"), "in the middle stays");
}
