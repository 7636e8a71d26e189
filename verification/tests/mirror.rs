use std::collections::HashMap;

use config_backup::mirror::{dest_path, plan_mirror, FileEntry};

fn terms(list: &[&str]) -> Vec<String> {
    let mut v: Vec<String> = Vec::new();
    for t in list {
        v.push(String::from(*t));
    }
    v
}

fn entry(path: &str, content: &[u8]) -> FileEntry {
    FileEntry { path: String::from(path), content: content.to_vec() }
}

#[test]
fn scenario_settings_survive_discord_does_not() {
    // Source tree: app/settings.json and discord/data.db; denylist
    // {discord, cache}: only app/settings.json is mirrored.
    let entries = vec![
        entry("app/settings.json", b"{\"a\":1}"),
        entry("discord/data.db", b"\x00\x01"),
    ];
    let t = terms(&["discord", "cache"]);
    let kept = plan_mirror(entries, &t);
    assert_eq!(kept.len(), 1);
    assert_eq!(kept[0].path, "app/settings.json");
    assert_eq!(kept[0].content, b"{\"a\":1}".to_vec());
}

#[test]
fn keeps_traversal_order() {
    let entries = vec![
        entry("b/two", b"2"),
        entry("a/one", b"1"),
        entry("cache/skip", b"x"),
        entry("c/three", b"3"),
    ];
    let t = terms(&["cache"]);
    let kept = plan_mirror(entries, &t);
    let paths: Vec<String> = kept.iter().map(|e| e.path.clone()).collect();
    assert_eq!(paths, vec![
        String::from("b/two"),
        String::from("a/one"),
        String::from("c/three"),
    ]);
}

#[test]
fn mirroring_twice_changes_nothing() {
    // Apply the planned copies to a destination map twice: the second pass
    // leaves the tree byte-identical to the first.
    let t = terms(&["cache"]);
    let make_entries = || {
        vec![entry("a/one", b"1"), entry("b/two", b"22"), entry("cache/x", b"no")]
    };
    let mut dest: HashMap<String, Vec<u8>> = HashMap::new();
    dest.insert(String::from("stale/file"), b"old".to_vec());
    for e in plan_mirror(make_entries(), &t) {
        dest.insert(e.path, e.content);
    }
    let after_once = dest.clone();
    for e in plan_mirror(make_entries(), &t) {
        dest.insert(e.path, e.content);
    }
    assert_eq!(dest, after_once);
    // Stale destination files are left in place, never pruned.
    assert_eq!(dest.get("stale/file"), Some(&b"old".to_vec()));
    assert_eq!(dest.get("a/one"), Some(&b"1".to_vec()));
    assert_eq!(dest.get("b/two"), Some(&b"22".to_vec()));
    assert_eq!(dest.get("cache/x"), None);
}

#[test]
fn joins_destination_paths() {
    assert_eq!(dest_path("/home/u/backup/config", "app/x.ini"), "/home/u/backup/config/app/x.ini");
    assert_eq!(dest_path("/home/u/backup/config/", "app/x.ini"), "/home/u/backup/config/app/x.ini");
    assert_eq!(dest_path("", "x"), "/x");
}
