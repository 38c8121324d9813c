use helper_binaries::binaries_manager::BinariesManager;
use helper_binaries::events::{Event, Stage};
use helper_binaries::manifest::{FileInfo, Manifest, ToolInfo};
use helper_binaries::metadata::Metadata;
use helper_binaries::commands::{Command, Signal};
use helper_binaries::pipeline::{Phase, ToolInstall};
use helper_binaries::site::Strategy;
use helper_binaries::run::Outcome;
use include_dir::{Dir, DirEntry, File};

const ABC_SHA256: &str = "ba7816bf8f01cfea414140de5dae2223b00361a396177a9cb410ff61f20015ad";

const HELPERS: &[DirEntry<'static>] = &[DirEntry::File(File::new("yt-dlp", b"abc"))];

fn manager() -> BinariesManager {
    BinariesManager::new("/opt/app/bin", "linux", "x86_64")
}

fn tool() -> ToolInfo {
    ToolInfo::new("1.0.0".to_string()).with_file(
        "linux-x86_64".to_string(),
        FileInfo {
            url: "https://github.com/yt-dlp/yt-dlp/releases/download/v1/yt-dlp".to_string(),
            sha256: ABC_SHA256.to_string(),
            entry: None,
            bundle: None,
        },
    )
}

fn manifest() -> Manifest {
    Manifest::new(String::new()).with_tool("yt-dlp".to_string(), tool())
}

#[test]
fn the_strategy_of_a_build_tells_whether_it_has_helpers() {
    assert_eq!(Strategy::embedded(&Dir::new("", HELPERS)), Strategy::Embedded { available: true });
    assert_eq!(Strategy::embedded(&Dir::new("", &[])), Strategy::Embedded { available: false });
}

#[test]
fn an_embedded_payload_is_released_not_fetched() {
    let m = manager();
    let strategy = Strategy::Embedded { available: true };
    let (install, commands) = m.install_single_tool("yt-dlp", &tool(), &strategy);
    assert!(install.is_ok());
    match &commands[1] {
        Command::Release { tool, temp } => {
            assert_eq!(tool, "yt-dlp");
            assert_eq!(temp, "/opt/app/bin/yt-dlp.tmp");
        }
        other => panic!("unexpected {:?}", other),
    }
}

#[test]
fn a_released_payload_passes_the_same_gate() {
    let strategy = Strategy::Embedded { available: true };
    let (install, _) = ToolInstall::begin(manager().site(), "yt-dlp", &tool(), &strategy);
    let mut install = install.ok().expect("the pipeline begins");
    install.step(Signal::Opened { total: 3 });
    install.step(Signal::Chunk(b"ab"));
    install.step(Signal::Chunk(b"c"));
    let script = install.step(Signal::Completed);
    assert_eq!(*install.phase(), Phase::Extracting);
    assert!(matches!(&script[0], Command::Rename { .. }));
}

#[test]
fn a_failed_release_fails_at_release_verify_at_once() {
    let strategy = Strategy::Embedded { available: true };
    let (install, _) = ToolInstall::begin(manager().site(), "yt-dlp", &tool(), &strategy);
    let mut install = install.ok().expect("the pipeline begins");
    install.step(Signal::Chunk(b"xyz"));
    let commands = install.step(Signal::Completed);
    match install.phase() {
        Phase::Failed(e) => assert_eq!(e.stage, Stage::ReleaseVerify),
        other => panic!("unexpected {:?}", other),
    }
    assert!(matches!(commands.last(), Some(Command::Emit(Event::DownloadError(_)))));
    assert!(!commands.iter().any(|c| matches!(c, Command::Fetch { .. } | Command::Release { .. })));
}

#[test]
fn a_tool_that_the_build_does_not_embed_fails_at_release_verify() {
    let strategy = Strategy::Embedded { available: true };
    let (install, _) = ToolInstall::begin(manager().site(), "yt-dlp", &tool(), &strategy);
    let mut install = install.ok().expect("the pipeline begins");
    let commands = install.step(Signal::NoData);
    match install.phase() {
        Phase::Failed(e) => assert_eq!(e.stage, Stage::ReleaseVerify),
        other => panic!("unexpected {:?}", other),
    }
    assert!(matches!(&commands[0], Command::Remove { required: false, .. }));
    assert!(matches!(commands.last(), Some(Command::Emit(Event::DownloadError(_)))));
}

#[test]
fn a_build_without_helpers_refuses_to_run() {
    let strategy = Strategy::Embedded { available: false };
    let (run, first) = manager().ensure(&manifest(), Metadata::new(), None, &strategy, &[]);
    assert!(first.is_empty());
    assert_eq!(run.outcome(), Some(&Outcome::NoEmbeddedHelpers));
    assert_eq!(
        run.outcome().and_then(|o| o.error()),
        Some("no embedded helpers for this build".to_string())
    );
}

#[test]
fn a_build_without_helpers_has_nothing_to_refuse_when_all_is_installed() {
    let strategy = Strategy::Embedded { available: false };
    let ledger = Metadata::new().with_version("yt-dlp".to_string(), "1.0.0".to_string());
    let (run, first) = manager().ensure(&manifest(), ledger, None, &strategy, &["yt-dlp".to_string()]);
    assert!(first.is_empty());
    assert_eq!(run.outcome(), Some(&Outcome::Success));
}
