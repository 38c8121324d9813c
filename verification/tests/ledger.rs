use helper_binaries::metadata::Metadata;

fn s(t: &str) -> String {
    t.to_string()
}

#[test]
fn a_new_ledger_is_empty_and_unlocked() {
    let l = Metadata::new();
    assert_eq!(l.len(), 0);
    assert!(!l.is_locked());
    assert_eq!(l.version_of("demo"), None);
    let d = Metadata::default();
    assert_eq!(d.len(), 0);
    assert!(!d.is_locked());
}

#[test]
fn a_recorded_version_is_found() {
    let l = Metadata::new().with_version(s("demo"), s("1.0.0")).with_version(s("other"), s("2"));
    assert_eq!(l.version_of("demo").map(|v| v.as_str()), Some("1.0.0"));
    assert_eq!(l.version_of("other").map(|v| v.as_str()), Some("2"));
    assert_eq!(l.version_of("dem"), None);
    assert_eq!(l.len(), 2);
}

#[test]
fn recording_again_replaces_the_version() {
    let l = Metadata::new()
        .with_version(s("demo"), s("1.0.0"))
        .with_version(s("other"), s("2"))
        .with_version(s("demo"), s("1.1.0"));
    assert_eq!(l.version_of("demo").map(|v| v.as_str()), Some("1.1.0"));
    assert_eq!(l.len(), 2);
}

#[test]
fn a_removed_tool_has_no_record() {
    let l = Metadata::new()
        .with_version(s("a"), s("1"))
        .with_version(s("b"), s("2"))
        .with_version(s("c"), s("3"))
        .without_tool("b");
    assert_eq!(l.version_of("b"), None);
    assert_eq!(l.version_of("a").map(|v| v.as_str()), Some("1"));
    assert_eq!(l.version_of("c").map(|v| v.as_str()), Some("3"));
    assert_eq!(l.len(), 2);
    let same = l.without_tool("zzz");
    assert_eq!(same.len(), 2);
}

#[test]
fn clearing_drops_every_record_and_keeps_the_lock() {
    let l = Metadata::new().with_version(s("a"), s("1")).with_lock(true).cleared();
    assert_eq!(l.len(), 0);
    assert!(l.is_locked());
}

#[test]
fn the_lock_does_not_touch_the_versions() {
    let l = Metadata::new().with_version(s("a"), s("1")).with_lock(true);
    assert!(l.is_locked());
    assert_eq!(l.version_of("a").map(|v| v.as_str()), Some("1"));
    assert!(!l.with_lock(false).is_locked());
}

#[test]
fn entries_list_every_record_once() {
    let l = Metadata::new().with_version(s("a"), s("1")).with_version(s("b"), s("2"));
    let mut seen = l.entries();
    seen.sort();
    assert_eq!(seen, vec![(s("a"), s("1")), (s("b"), s("2"))]);
}

#[test]
fn a_copy_holds_the_same_records() {
    let l = Metadata::new().with_version(s("a"), s("1")).with_lock(true);
    let c = l.clone();
    assert_eq!(c.version_of("a").map(|v| v.as_str()), Some("1"));
    assert!(c.is_locked());
    assert_eq!(c.len(), 1);
}
