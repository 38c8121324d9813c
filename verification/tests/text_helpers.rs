use helper_binaries::text::{
    chars_of, find_first, find_last, has_prefix, head_before, join2, join3, same_text, tail_after,
    without_trailing,
};

#[test]
fn chars_are_listed_in_order() {
    assert_eq!(chars_of("a-ß"), vec!['a', '-', 'ß']);
    assert!(chars_of("").is_empty());
}

#[test]
fn same_text_compares_contents() {
    assert!(same_text("zip", "zip"));
    assert!(!same_text("zip", "Zip"));
    assert!(!same_text("zip", "zi"));
    assert!(same_text("", ""));
}

#[test]
fn prefix_is_recognised() {
    assert!(has_prefix("https://github.com/o/r", "https://github.com/"));
    assert!(!has_prefix("https://github.com", "https://github.com/"));
    assert!(!has_prefix("http://github.com/o/r", "https://github.com/"));
    assert!(has_prefix("anything", ""));
    assert!(has_prefix("", ""));
    assert!(!has_prefix("", "a"));
}

#[test]
fn first_and_last_positions_count_characters() {
    assert_eq!(find_first("a-b-c", '-'), Some(1));
    assert_eq!(find_last("a-b-c", '-'), Some(3));
    assert_eq!(find_first("ßß-x", '-'), Some(2));
    assert_eq!(find_first("abc", '-'), None);
    assert_eq!(find_last("abc", '-'), None);
    assert_eq!(find_last("", '-'), None);
}

#[test]
fn head_before_the_first_separator() {
    assert_eq!(head_before("linux-x86_64", '-'), "linux");
    assert_eq!(head_before("linux", '-'), "linux");
    assert_eq!(head_before("-x", '-'), "");
    assert_eq!(head_before("a-b-c", '-'), "a");
    assert_eq!(head_before("", '-'), "");
}

#[test]
fn tail_after_the_last_separator() {
    assert_eq!(tail_after("https://e.org/a/b.zip", '/'), "b.zip");
    assert_eq!(tail_after("b.zip", '/'), "b.zip");
    assert_eq!(tail_after("https://e.org/a/", '/'), "");
    assert_eq!(tail_after("", '/'), "");
}

#[test]
fn trailing_run_is_removed() {
    assert_eq!(without_trailing("https://p.example///", '/'), "https://p.example");
    assert_eq!(without_trailing("https://p.example", '/'), "https://p.example");
    assert_eq!(without_trailing("///", '/'), "");
    assert_eq!(without_trailing("a/b/", '/'), "a/b");
    assert_eq!(without_trailing("", '/'), "");
}

#[test]
fn joins_concatenate() {
    assert_eq!(join2("demo", ".exe"), "demo.exe");
    assert_eq!(join3("dir", "/", "name"), "dir/name");
    assert_eq!(join3("", "", ""), "");
}
