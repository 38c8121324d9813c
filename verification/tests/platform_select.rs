use helper_binaries::manifest::{FileInfo, ToolInfo};
use helper_binaries::platform::{current_platform, select_file};

fn file(url: &str) -> FileInfo {
    FileInfo { url: url.to_string(), sha256: String::new(), entry: None, bundle: None }
}

fn tool(keys: &[&str]) -> ToolInfo {
    let mut t = ToolInfo::new("1".to_string());
    for k in keys {
        t = t.with_file(k.to_string(), file(k));
    }
    t
}

#[test]
fn platform_key_joins_system_and_architecture() {
    assert_eq!(current_platform("linux", "x86_64"), "linux-x86_64");
    assert_eq!(current_platform("windows", "aarch64"), "windows-aarch64");
}

#[test]
fn apple_desktop_system_goes_by_darwin() {
    assert_eq!(current_platform("macos", "aarch64"), "darwin-aarch64");
    assert_eq!(current_platform("macosx", "aarch64"), "macosx-aarch64");
}

#[test]
fn exact_key_wins() {
    let t = tool(&["linux-aarch64", "linux-x86_64", "darwin-aarch64"]);
    let (key, f) = select_file(&t, "linux-x86_64").expect("a file");
    assert_eq!(key, "linux-x86_64");
    assert_eq!(f.url, "linux-x86_64");
}

#[test]
fn first_file_of_the_same_system_stands_in() {
    let t = tool(&["darwin-x86_64", "linux-aarch64", "linux-riscv64"]);
    let (key, f) = select_file(&t, "linux-x86_64").expect("a file");
    assert_eq!(key, "linux-aarch64");
    assert_eq!(f.url, "linux-aarch64");
}

#[test]
fn another_system_is_no_match() {
    let t = tool(&["darwin-x86_64", "windows-x86_64"]);
    assert!(select_file(&t, "linux-x86_64").is_none());
    assert!(select_file(&tool(&[]), "linux-x86_64").is_none());
}

#[test]
fn a_key_without_separator_is_its_own_system() {
    let t = tool(&["linux-aarch64"]);
    assert_eq!(select_file(&t, "linux").map(|c| c.0.as_str()), Some("linux-aarch64"));
    assert_eq!(select_file(&t, "lin").map(|c| c.0.as_str()), Some("linux-aarch64"));
}

#[test]
fn an_empty_system_matches_the_first_file() {
    let t = tool(&["darwin-x86_64", "linux-aarch64"]);
    assert_eq!(select_file(&t, "-x86_64").map(|c| c.0.as_str()), Some("darwin-x86_64"));
    assert_eq!(select_file(&t, "").map(|c| c.0.as_str()), Some("darwin-x86_64"));
}
