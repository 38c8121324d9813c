use helper_binaries::embedded::{embedded_tool_bytes, has_embedded_binaries};
use include_dir::{Dir, DirEntry, File};

const WITH_HELPERS: &[DirEntry<'static>] = &[
    DirEntry::File(File::new("ffmpeg", b"\x7fELF-ffmpeg")),
    DirEntry::File(File::new("yt-dlp", b"#!yt-dlp")),
];

const ONE_HELPER: &[DirEntry<'static>] = &[DirEntry::File(File::new("ffmpeg", b"\x7fELF-ffmpeg"))];

#[test]
fn embedded_bytes_are_those_of_the_named_file() {
    let dir = Dir::new("", WITH_HELPERS);
    assert_eq!(embedded_tool_bytes(&dir, "yt-dlp"), Some(&b"#!yt-dlp"[..]));
    assert_eq!(embedded_tool_bytes(&dir, "ffmpeg"), Some(&b"\x7fELF-ffmpeg"[..]));
}

#[test]
fn embedded_bytes_of_an_unknown_tool_are_absent() {
    let dir = Dir::new("", WITH_HELPERS);
    assert_eq!(embedded_tool_bytes(&dir, "deno"), None);
}

#[test]
fn a_build_with_helpers_has_embedded_binaries() {
    assert!(has_embedded_binaries(&Dir::new("", WITH_HELPERS)));
}

#[test]
fn an_empty_directory_has_no_embedded_binaries() {
    assert!(!has_embedded_binaries(&Dir::new("", &[])));
}

#[test]
fn a_build_with_any_helper_has_embedded_binaries() {
    let dir = Dir::new("", ONE_HELPER);
    assert!(has_embedded_binaries(&dir));
    assert!(embedded_tool_bytes(&dir, "ffmpeg").is_some());
    assert!(embedded_tool_bytes(&dir, "yt-dlp").is_none());
}
