use helper_binaries::extract::{
    archive_kind, executable_mode, file_name_of_url, hoist_plan, hoisted_listing, join_path,
    parent_dir, temp_name, ArchiveKind, HoistError, HoistMove,
};

fn names(list: &[&str]) -> Vec<String> {
    list.iter().map(|t| t.to_string()).collect()
}

#[test]
fn the_file_name_is_the_last_segment_of_the_url() {
    assert_eq!(file_name_of_url("https://e.org/a/b/tool.zip"), Some("tool.zip"));
    assert_eq!(file_name_of_url("tool"), Some("tool"));
    assert_eq!(file_name_of_url("https://e.org/a/b/"), None);
    assert_eq!(file_name_of_url(""), None);
}

#[test]
fn the_archive_family_follows_the_extension() {
    assert_eq!(archive_kind("tool.zip"), ArchiveKind::Zip);
    assert_eq!(archive_kind("tool.tar.bz2"), ArchiveKind::TarBz2);
    assert_eq!(archive_kind("tool"), ArchiveKind::Raw);
    assert_eq!(archive_kind("tool.exe"), ArchiveKind::Raw);
    assert_eq!(archive_kind("tool.ZIP"), ArchiveKind::Raw);
    assert_eq!(archive_kind("tool.zip.sig"), ArchiveKind::Raw);
    assert_eq!(archive_kind(".zip"), ArchiveKind::Raw);
    assert_eq!(archive_kind("zip"), ArchiveKind::Raw);
    assert_eq!(archive_kind("tool."), ArchiveKind::Raw);
}

#[test]
fn the_temporary_name_swaps_the_extension() {
    assert_eq!(temp_name("tool.zip"), "tool.tmp");
    assert_eq!(temp_name("tool.tar.bz2"), "tool.tar.tmp");
    assert_eq!(temp_name("tool"), "tool.tmp");
    assert_eq!(temp_name(".hidden"), ".hidden.tmp");
    assert_eq!(temp_name("tool."), "tool.tmp");
}

#[test]
fn paths_are_joined_with_a_slash() {
    assert_eq!(join_path("/opt/bin", "tool"), "/opt/bin/tool");
}

#[test]
fn the_parent_is_what_precedes_the_last_slash() {
    assert_eq!(parent_dir("/opt/bin/tool"), Some("/opt/bin"));
    assert_eq!(parent_dir("bin/tool"), Some("bin"));
    assert_eq!(parent_dir("/tool"), Some("/"));
    assert_eq!(parent_dir("tool"), Some(""));
    assert_eq!(parent_dir("/"), None);
    assert_eq!(parent_dir(""), None);
}

#[test]
fn a_file_without_execute_bits_becomes_rwxr_xr_x() {
    assert_eq!(executable_mode(0o644), 0o755);
    assert_eq!(executable_mode(0o600), 0o755);
    assert_eq!(executable_mode(0), 0o755);
    assert_eq!(executable_mode(0o100644 & !0o111), 0o755);
}

#[test]
fn a_file_with_an_execute_bit_keeps_its_mode() {
    assert_eq!(executable_mode(0o755), 0o755);
    assert_eq!(executable_mode(0o700), 0o700);
    assert_eq!(executable_mode(0o641), 0o641);
    assert_eq!(executable_mode(0o777), 0o777);
    assert_eq!(executable_mode(0o4711), 0o4711);
}

#[test]
fn bundle_hoist() {
    let plan = hoist_plan("/opt/app/bin/.scratch/ffmpeg-7", "/opt/app/bin/ffmpeg", &names(&["bin", "lib"]))
        .expect("a plan");
    assert_eq!(plan.dest_dir, "/opt/app/bin");
    assert_eq!(
        plan.moves,
        vec![
            HoistMove {
                from: "/opt/app/bin/.scratch/ffmpeg-7/bin".to_string(),
                to: "/opt/app/bin/bin".to_string()
            },
            HoistMove {
                from: "/opt/app/bin/.scratch/ffmpeg-7/lib".to_string(),
                to: "/opt/app/bin/lib".to_string()
            },
        ]
    );
    assert_eq!(plan.scratch, "/opt/app/bin/.scratch/ffmpeg-7");
    let after = hoisted_listing(&names(&["metadata.json", ".scratch"]), &names(&["bin", "lib"]));
    assert_eq!(after, names(&["metadata.json", ".scratch", "bin", "lib"]));
}

#[test]
fn a_hoisted_item_replaces_one_of_the_same_name() {
    let after = hoisted_listing(&names(&["lib", "metadata.json", "bin"]), &names(&["bin", "lib"]));
    assert_eq!(after, names(&["metadata.json", "bin", "lib"]));
    assert_eq!(hoisted_listing(&[], &names(&["bin"])), names(&["bin"]));
    assert_eq!(hoisted_listing(&names(&["a"]), &[]), names(&["a"]));
}

#[test]
fn an_empty_bundle_moves_nothing() {
    let plan = hoist_plan("/s", "/opt/bin/tool", &[]).expect("a plan");
    assert!(plan.moves.is_empty());
    assert_eq!(plan.scratch, "/s");
}

#[test]
fn a_canonical_path_without_a_parent_cannot_be_hoisted_into() {
    assert_eq!(hoist_plan("/s", "/", &names(&["bin"])), Err(HoistError::NoParent));
    assert_eq!(hoist_plan("/s", "", &[]), Err(HoistError::NoParent));
    assert_eq!(HoistError::NoParent.message(), "canonical has no parent directory");
}
