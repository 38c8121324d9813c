use helper_binaries::binaries_manager::{BinariesManager, ManualInfoError};
use helper_binaries::binaries_state::{HelperToolStatus, ManualToolInfo};
use helper_binaries::events::Event;
use helper_binaries::extract::HoistError;
use helper_binaries::manifest::{FileInfo, Manifest, ToolInfo};
use helper_binaries::metadata::Metadata;
use helper_binaries::commands::Command;
use helper_binaries::site::Strategy;
use helper_binaries::run::RunPhase;

fn s(t: &str) -> String {
    t.to_string()
}

fn names(list: &[&str]) -> Vec<String> {
    list.iter().map(|t| t.to_string()).collect()
}

fn tool(version: &str, platform: &str, url: &str) -> ToolInfo {
    ToolInfo::new(s(version)).with_file(
        s(platform),
        FileInfo { url: s(url), sha256: String::new(), entry: None, bundle: None },
    )
}

fn manifest() -> Manifest {
    Manifest::new(s("2024-05-01T00:00:00Z"))
        .with_tool(s("yt-dlp"), tool("2024.05.27", "linux-x86_64", "https://github.com/a/b/yt-dlp"))
        .with_tool(s("ffmpeg"), tool("7.0", "linux-aarch64", "https://e.org/ffmpeg.tar.bz2"))
        .with_tool(s("deno"), tool("1.43", "windows-x86_64", "https://e.org/deno.zip"))
}

fn linux() -> BinariesManager {
    BinariesManager::new("/opt/app/bin", "linux", "x86_64")
}

#[test]
fn the_manager_knows_its_site() {
    let m = BinariesManager::new("/opt/app/bin", "macos", "aarch64");
    assert_eq!(m.site().bin_dir, "/opt/app/bin");
    assert_eq!(m.site().platform, "darwin-aarch64");
    assert!(!m.site().windows);
    assert!(BinariesManager::new("C:/bin", "windows", "x86_64").site().windows);
}

#[test]
fn canonical_paths_follow_the_platform() {
    assert_eq!(linux().canonical_path("yt-dlp"), "/opt/app/bin/yt-dlp");
    let win = BinariesManager::new("C:/app/bin", "windows", "x86_64");
    assert_eq!(win.canonical_path("yt-dlp"), "C:/app/bin/yt-dlp.exe");
    assert_eq!(linux().metadata_path(), "/opt/app/bin/metadata.json");
}

#[test]
fn all_tools_are_listed_in_manifest_order() {
    assert_eq!(linux().list_tools(&manifest()), names(&["yt-dlp", "ffmpeg", "deno"]));
    assert!(linux().list_tools(&Manifest::new(String::new())).is_empty());
}

#[test]
fn the_check_tells_pending_and_offered_tools() {
    let ledger = Metadata::new().with_version(s("yt-dlp"), s("2024.05.27"));
    let result = linux().check(&manifest(), &ledger, &names(&["yt-dlp"]));
    assert_eq!(result.tools, names(&["ffmpeg"]));
    assert_eq!(result.all_tools, names(&["yt-dlp", "ffmpeg"]));
}

#[test]
fn the_helper_list_tells_what_is_installed() {
    let ledger = Metadata::new()
        .with_version(s("yt-dlp"), s("2024.05.27"))
        .with_version(s("ffmpeg"), s("6.1"));
    let list = linux().list_tools_with_status(&manifest(), &ledger, &names(&["yt-dlp", "ffmpeg"]));
    assert_eq!(
        list,
        vec![
            HelperToolStatus { name: s("yt-dlp"), version: s("2024.05.27"), installed: true },
            HelperToolStatus { name: s("ffmpeg"), version: s("7.0"), installed: false },
        ]
    );
}

#[test]
fn a_recorded_version_without_its_file_is_not_installed() {
    let ledger = Metadata::new().with_version(s("yt-dlp"), s("2024.05.27")).with_lock(true);
    let list = linux().list_tools_with_status(&manifest(), &ledger, &[]);
    assert_eq!(list.len(), 2);
    assert!(!list[0].installed);
    assert!(!list[1].installed);
}

#[test]
fn probe_targets_are_the_supported_tools_on_the_allow_list() {
    let m = linux();
    assert_eq!(m.probe_targets(&manifest(), &Metadata::new(), None), names(&["yt-dlp", "ffmpeg"]));
    let allow = names(&["ffmpeg", "deno"]);
    assert_eq!(m.probe_targets(&manifest(), &Metadata::new(), Some(&allow)), names(&["ffmpeg"]));
    let locked = Metadata::new().with_lock(true);
    assert!(m.probe_targets(&manifest(), &locked, None).is_empty());
}

#[test]
fn removing_a_tool_forgets_its_version_and_names_its_file() {
    let ledger = Metadata::new().with_version(s("yt-dlp"), s("1")).with_version(s("ffmpeg"), s("2"));
    let (after, path) = linux().remove_tool(ledger, "yt-dlp");
    assert_eq!(after.version_of("yt-dlp"), None);
    assert_eq!(after.version_of("ffmpeg").map(|v| v.as_str()), Some("2"));
    assert_eq!(path, "/opt/app/bin/yt-dlp");
    let (same, path) = linux().remove_tool(after, "unknown");
    assert_eq!(same.len(), 1);
    assert_eq!(path, "/opt/app/bin/unknown");
}

#[test]
fn manual_info_gives_the_url_and_the_directory() {
    assert_eq!(
        linux().tool_manual_info(&manifest(), "yt-dlp"),
        Ok(ManualToolInfo { url: s("https://github.com/a/b/yt-dlp"), bin_dir: s("/opt/app/bin") })
    );
    assert_eq!(
        linux().tool_manual_info(&manifest(), "ffmpeg").map(|i| i.url),
        Ok(s("https://e.org/ffmpeg.tar.bz2"))
    );
}

#[test]
fn manual_info_of_an_unknown_tool_is_refused() {
    let error = linux().tool_manual_info(&manifest(), "wget").unwrap_err();
    assert_eq!(error, ManualInfoError::ToolNotFound);
    assert_eq!(error.message(), "tool not found");
}

#[test]
fn manual_info_without_a_file_for_the_platform_is_refused() {
    let error = linux().tool_manual_info(&manifest(), "deno").unwrap_err();
    assert_eq!(error, ManualInfoError::NoFileForPlatform);
    assert_eq!(error.message(), "no file for current platform");
}

#[test]
fn redownload_forgets_the_ledger_and_plans_everything() {
    let ledger = Metadata::new()
        .with_version(s("yt-dlp"), s("2024.05.27"))
        .with_version(s("ffmpeg"), s("7.0"))
        .with_lock(true);
    let (to_write, run, first) = linux().redownload_all(&manifest(), ledger, None);
    assert_eq!(to_write.len(), 0);
    assert!(!to_write.is_locked());
    assert_eq!(*run.phase(), RunPhase::Installing);
    assert!(matches!(&first[0], Command::Emit(Event::DownloadStart { tool, .. }) if tool == "yt-dlp"));
    match &first[1] {
        Command::Fetch { url, .. } => assert_eq!(url, "https://github.com/a/b/yt-dlp"),
        other => panic!("unexpected {:?}", other),
    }
}

#[test]
fn redownload_uses_the_proxies() {
    let (_, mut run, _) = linux().redownload_all(&manifest(), Metadata::new(), Some("https://m.example"));
    let next = run.step(helper_binaries::commands::Signal::Failed);
    match next.last() {
        Some(Command::Fetch { url, .. }) => {
            assert_eq!(url, "https://m.example/https://github.com/a/b/yt-dlp")
        }
        other => panic!("unexpected {:?}", other),
    }
}

#[test]
fn a_single_tool_can_be_begun_on_its_own() {
    let t = tool("1", "linux-x86_64", "https://e.org/dl/demo.zip");
    let (install, commands) = linux().install_single_tool("demo", &t, &Strategy::network(false, None));
    assert!(install.is_ok());
    assert_eq!(commands.len(), 2);
}

#[test]
fn the_manager_plans_a_hoist() {
    let plan = linux()
        .hoist_bundle_contents_into_bin("/opt/app/bin/ffmpeg-7", "/opt/app/bin/ffmpeg", &names(&["bin"]))
        .expect("a plan");
    assert_eq!(plan.dest_dir, "/opt/app/bin");
    assert_eq!(plan.moves[0].to, "/opt/app/bin/bin");
    assert_eq!(
        linux().hoist_bundle_contents_into_bin("/x", "", &[]),
        Err(HoistError::NoParent)
    );
}
