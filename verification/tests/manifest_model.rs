use helper_binaries::manifest::{FileInfo, Manifest, ToolInfo};

fn file(url: &str) -> FileInfo {
    FileInfo { url: url.to_string(), sha256: "00".repeat(32), entry: None, bundle: None }
}

#[test]
fn manifest_keeps_insertion_order() {
    let m = Manifest::new("2024-01-01T00:00:00Z".to_string())
        .with_tool("zeta".to_string(), ToolInfo::new("1".to_string()))
        .with_tool("alpha".to_string(), ToolInfo::new("2".to_string()));
    assert_eq!(m.tool_count(), 2);
    assert_eq!(m.tool_at(0).0, "zeta");
    assert_eq!(m.tool_at(1).0, "alpha");
}

#[test]
fn manifest_replaces_a_tool_in_place() {
    let m = Manifest::new(String::new())
        .with_tool("a".to_string(), ToolInfo::new("1".to_string()))
        .with_tool("b".to_string(), ToolInfo::new("1".to_string()))
        .with_tool("a".to_string(), ToolInfo::new("2".to_string()));
    assert_eq!(m.tool_count(), 2);
    assert_eq!(m.tool_at(0).0, "a");
    assert_eq!(m.tool_at(0).1.version(), "2");
    assert_eq!(m.tool("b").map(|t| t.version().clone()), Some("1".to_string()));
    assert!(m.tool("c").is_none());
}

#[test]
fn tool_replaces_a_file_in_place() {
    let t = ToolInfo::new("1".to_string())
        .with_file("linux-x86_64".to_string(), file("https://e.org/a"))
        .with_file("darwin-aarch64".to_string(), file("https://e.org/b"))
        .with_file("linux-x86_64".to_string(), file("https://e.org/c"));
    assert_eq!(t.file_count(), 2);
    assert_eq!(t.file_at(0).0, "linux-x86_64");
    assert_eq!(t.file_at(0).1.url, "https://e.org/c");
    assert_eq!(t.file_at(1).1.url, "https://e.org/b");
}
