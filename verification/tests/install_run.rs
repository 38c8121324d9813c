use helper_binaries::binaries_manager::BinariesManager;
use helper_binaries::events::{Event, Stage, ToolResult};
use helper_binaries::manifest::{FileInfo, Manifest, ToolInfo};
use helper_binaries::metadata::Metadata;
use helper_binaries::commands::{Command, Signal};
use helper_binaries::site::Strategy;
use helper_binaries::run::{InstallRun, Outcome, RunPhase};

const ABC_SHA256: &str = "ba7816bf8f01cfea414140de5dae2223b00361a396177a9cb410ff61f20015ad";

fn manager() -> BinariesManager {
    BinariesManager::new("/opt/app/bin", "linux", "x86_64")
}

fn tool(version: &str, url: &str) -> ToolInfo {
    ToolInfo::new(version.to_string()).with_file(
        "linux-x86_64".to_string(),
        FileInfo { url: url.to_string(), sha256: ABC_SHA256.to_string(), entry: None, bundle: None },
    )
}

fn demo_manifest(version: &str) -> Manifest {
    Manifest::new("2024-05-01T00:00:00Z".to_string())
        .with_tool("demo".to_string(), tool(version, "https://example.org/dl/demo"))
}

fn two_tools() -> Manifest {
    Manifest::new("2024-05-01T00:00:00Z".to_string())
        .with_tool("alpha".to_string(), tool("1.0.0", "https://example.org/dl/alpha"))
        .with_tool("beta".to_string(), tool("2.0.0", "https://example.org/dl/beta"))
}

fn direct() -> Strategy {
    Strategy::network(false, None)
}

fn names(list: &[&str]) -> Vec<String> {
    list.iter().map(|s| s.to_string()).collect()
}

/// Plays the part of a driver for which every download succeeds with the
/// payload `abc` unless the tool is named in `broken`.
fn drive(run: &mut InstallRun, first: Vec<Command>, broken: &[&str], save_ok: bool) -> Vec<Event> {
    let mut events = Vec::new();
    let mut pending = first;
    let mut rounds = 0;
    while !pending.is_empty() {
        rounds += 1;
        assert!(rounds < 1000, "the run does not come to an end");
        let mut next = Vec::new();
        for command in pending {
            let answer = match command {
                Command::Emit(e) => {
                    events.push(e);
                    vec![]
                }
                Command::Fetch { url, .. } => {
                    if broken.iter().any(|b| url.ends_with(b)) {
                        vec![Signal::Failed]
                    } else {
                        vec![
                            Signal::Opened { total: 3 },
                            Signal::Chunk(b"abc"),
                            Signal::Completed,
                        ]
                    }
                }
                Command::MakeExecutable { .. } => vec![Signal::Installed],
                Command::Probe { .. } => vec![Signal::Probed { exists: true }],
                Command::SaveLedger(_) => {
                    if save_ok {
                        vec![Signal::Saved]
                    } else {
                        vec![Signal::SaveFailed { message: "disk full" }]
                    }
                }
                _ => vec![],
            };
            for signal in answer {
                next.extend(run.step(signal));
            }
        }
        pending = next;
    }
    events
}

#[test]
fn fresh_install() {
    let m = manager();
    let manifest = demo_manifest("1.0.0");
    let check = m.check(&manifest, &Metadata::new(), &[]);
    assert_eq!(check.tools, names(&["demo"]));
    assert_eq!(check.all_tools, names(&["demo"]));

    let (mut run, first) = m.ensure(&manifest, Metadata::new(), None, &direct(), &[]);
    let events = drive(&mut run, first, &[], true);
    assert_eq!(run.outcome(), Some(&Outcome::Success));
    assert_eq!(run.ledger().version_of("demo").map(|v| v.as_str()), Some("1.0.0"));
    assert_eq!(run.ledger().len(), 1);
    assert!(!run.ledger().is_locked());
    assert_eq!(
        events,
        vec![
            Event::DownloadStart { tool: "demo".to_string(), version: "1.0.0".to_string() },
            Event::DownloadProgress { tool: "demo".to_string(), total: 3, received: 3 },
            Event::DownloadComplete { tool: "demo".to_string() },
            Event::UpdateComplete(ToolResult {
                successes: names(&["demo"]),
                failures: vec![],
                error: None,
            }),
        ]
    );

    let after = m.check(&manifest, run.ledger(), &names(&["demo"]));
    assert!(after.tools.is_empty());
    assert_eq!(after.all_tools, names(&["demo"]));
}

#[test]
fn version_bump() {
    let m = manager();
    let ledger = Metadata::new().with_version("demo".to_string(), "1.0.0".to_string());
    let manifest = demo_manifest("1.1.0");
    let present = names(&["demo"]);
    let check = m.check(&manifest, &ledger, &present);
    assert_eq!(check.tools, names(&["demo"]));
    let (mut run, first) = m.ensure(&manifest, ledger, None, &direct(), &present);
    assert_eq!(*run.phase(), RunPhase::Installing);
    drive(&mut run, first, &[], true);
    assert_eq!(run.ledger().version_of("demo").map(|v| v.as_str()), Some("1.1.0"));
}

#[test]
fn all_mirrors_fail() {
    let m = manager();
    let url = "https://github.com/o/r/releases/download/v1/demo";
    let manifest = Manifest::new(String::new()).with_tool("demo".to_string(), tool("1.0.0", url));
    let ledger = Metadata::new().with_version("demo".to_string(), "0.9.0".to_string());
    let (mut run, first) = m.ensure(&manifest, ledger, None, &Strategy::network(true, Some("https://mirror.example/")), &[]);
    let events = drive(&mut run, first, &["demo"], true);
    assert_eq!(run.outcome(), Some(&Outcome::ToolsFailed));
    assert_eq!(
        run.outcome().and_then(|o| o.error()),
        Some("one or more tools failed to install".to_string())
    );
    assert_eq!(run.ledger().version_of("demo").map(|v| v.as_str()), Some("0.9.0"));
    let error = events
        .iter()
        .find_map(|e| match e {
            Event::DownloadError(e) => Some(e),
            _ => None,
        })
        .expect("an error event");
    assert_eq!(error.stage, Stage::DownloadVerify);
    assert_eq!(error.stage.label(), "download_verify");
    assert!(error.error.contains(url));
    assert!(error.error.contains("/opt/app/bin"));
    match events.last() {
        Some(Event::UpdateComplete(result)) => {
            assert!(result.successes.is_empty());
            assert_eq!(result.failures.len(), 1);
            assert_eq!(result.error, None);
        }
        other => panic!("unexpected {:?}", other),
    }
}

#[test]
fn a_failed_tool_does_not_stop_the_run() {
    let m = manager();
    let manifest = two_tools();
    let ledger = Metadata::new().with_version("alpha".to_string(), "0.1.0".to_string());
    let (mut run, first) = m.ensure(&manifest, ledger, None, &direct(), &[]);
    let events = drive(&mut run, first, &["alpha"], true);
    assert_eq!(run.outcome(), Some(&Outcome::ToolsFailed));
    assert_eq!(run.successes(), &names(&["beta"]));
    assert_eq!(run.failures().len(), 1);
    assert_eq!(run.failures()[0].tool, "alpha");
    assert_eq!(run.ledger().version_of("alpha").map(|v| v.as_str()), Some("0.1.0"));
    assert_eq!(run.ledger().version_of("beta").map(|v| v.as_str()), Some("2.0.0"));
    let starts: Vec<&Event> =
        events.iter().filter(|e| matches!(e, Event::DownloadStart { .. })).collect();
    assert_eq!(starts.len(), 2);
}

#[test]
fn the_result_lists_exactly_the_finished_tools() {
    let m = manager();
    for broken in ["alpha", "beta"] {
        let fine = if broken == "alpha" { "beta" } else { "alpha" };
        let pinned = if broken == "alpha" { "1.0.0" } else { "2.0.0" };
        let (mut run, first) = m.ensure(&two_tools(), Metadata::new(), None, &direct(), &[]);
        let events = drive(&mut run, first, &[broken], true);
        let results: Vec<&ToolResult> = events
            .iter()
            .filter_map(|e| match e {
                Event::UpdateComplete(r) => Some(r),
                _ => None,
            })
            .collect();
        assert_eq!(results.len(), 1);
        let result = results[0];
        assert_eq!(result.successes, names(&[fine]));
        assert_eq!(result.failures.len(), 1);
        assert_eq!(result.failures[0].tool, broken);
        assert_eq!(result.failures[0].version, pinned);
        assert_eq!(result.failures[0].stage, Stage::DownloadVerify);
        assert_eq!(result.error, None);
        assert!(matches!(events.last(), Some(Event::UpdateComplete(_))));
    }
}

#[test]
fn a_record_outside_the_plan_is_untouched() {
    let m = manager();
    let ledger = Metadata::new()
        .with_version("gone".to_string(), "0.3".to_string())
        .with_version("alpha".to_string(), "1.0.0".to_string());
    let (mut run, first) = m.ensure(&two_tools(), ledger, None, &direct(), &names(&["alpha"]));
    drive(&mut run, first, &[], true);
    assert_eq!(run.successes(), &names(&["beta"]));
    assert_eq!(run.ledger().version_of("gone").map(|v| v.as_str()), Some("0.3"));
    assert_eq!(run.ledger().version_of("alpha").map(|v| v.as_str()), Some("1.0.0"));
    assert_eq!(run.ledger().len(), 3);
}

#[test]
fn a_failed_tool_without_a_record_stays_without_one() {
    let m = manager();
    let manifest = two_tools();
    let (mut run, first) = m.ensure(&manifest, Metadata::new(), None, &direct(), &[]);
    drive(&mut run, first, &["beta"], true);
    assert_eq!(run.ledger().version_of("beta"), None);
    assert_eq!(run.ledger().version_of("alpha").map(|v| v.as_str()), Some("1.0.0"));
}

#[test]
fn a_locked_ledger_freezes_the_installer() {
    let m = manager();
    let manifest = two_tools();
    let ledger = Metadata::new().with_lock(true);
    assert!(m.probe_targets(&manifest, &ledger, None).is_empty());
    let check = m.check(&manifest, &ledger, &[]);
    assert!(check.tools.is_empty());
    assert!(check.all_tools.is_empty());
    let (mut run, first) = m.ensure(&manifest, ledger, None, &direct(), &[]);
    assert!(first.is_empty());
    assert_eq!(run.outcome(), Some(&Outcome::Success));
    assert!(run.step(Signal::Saved).is_empty());
    assert!(run.ledger().is_locked());
}

#[test]
fn an_empty_plan_does_nothing() {
    let m = manager();
    let manifest = demo_manifest("1.0.0");
    let ledger = Metadata::new().with_version("demo".to_string(), "1.0.0".to_string());
    let (run, first) = m.ensure(&manifest, ledger, None, &direct(), &names(&["demo"]));
    assert!(first.is_empty());
    assert_eq!(run.outcome(), Some(&Outcome::Success));
}

#[test]
fn a_second_run_has_nothing_to_do() {
    let m = manager();
    let manifest = two_tools();
    let (mut run, first) = m.ensure(&manifest, Metadata::new(), None, &direct(), &[]);
    drive(&mut run, first, &[], true);
    let ledger = run.ledger().clone();
    let present = names(&["alpha", "beta"]);
    let (again, commands) = m.ensure(&manifest, ledger, None, &direct(), &present);
    assert!(commands.is_empty());
    assert_eq!(again.outcome(), Some(&Outcome::Success));
}

#[test]
fn a_ledger_that_cannot_be_written_is_reported_with_the_result() {
    let m = manager();
    let manifest = demo_manifest("1.0.0");
    let (mut run, first) = m.ensure(&manifest, Metadata::new(), None, &direct(), &[]);
    let events = drive(&mut run, first, &[], false);
    assert_eq!(run.outcome(), Some(&Outcome::LedgerWrite("disk full".to_string())));
    assert_eq!(run.outcome().and_then(|o| o.error()), Some("disk full".to_string()));
    match events.last() {
        Some(Event::UpdateComplete(result)) => {
            assert_eq!(result.successes, names(&["demo"]));
            assert_eq!(result.error.as_deref(), Some("disk full"));
        }
        other => panic!("unexpected {:?}", other),
    }
}

#[test]
fn the_allow_list_restricts_the_run() {
    let m = manager();
    let manifest = two_tools();
    let allow = names(&["beta", "gamma"]);
    let (mut run, first) = m.ensure(&manifest, Metadata::new(), Some(&allow), &direct(), &[]);
    drive(&mut run, first, &[], true);
    assert_eq!(run.successes(), &names(&["beta"]));
    assert_eq!(run.ledger().version_of("alpha"), None);
}

#[test]
fn a_tool_whose_url_names_no_file_fails_and_the_next_one_begins() {
    let m = manager();
    let manifest = Manifest::new(String::new())
        .with_tool("broken".to_string(), tool("1.0.0", "https://example.org/dl/"))
        .with_tool("beta".to_string(), tool("2.0.0", "https://example.org/dl/beta"));
    let (mut run, first) = m.ensure(&manifest, Metadata::new(), None, &direct(), &[]);
    assert!(matches!(&first[0], Command::Emit(Event::DownloadError(e)) if e.stage == Stage::ParseFilename));
    assert!(matches!(&first[1], Command::Emit(Event::DownloadStart { tool, .. }) if tool == "beta"));
    drive(&mut run, first, &[], true);
    assert_eq!(run.outcome(), Some(&Outcome::ToolsFailed));
    assert_eq!(run.successes(), &names(&["beta"]));
}

#[test]
fn the_ledger_is_saved_unlocked_once_at_the_end() {
    let m = manager();
    let manifest = two_tools();
    let (mut run, first) = m.ensure(&manifest, Metadata::new(), None, &direct(), &[]);
    let mut saves = 0;
    let mut pending = first;
    while !pending.is_empty() {
        let mut next = Vec::new();
        for command in pending {
            match command {
                Command::Fetch { .. } => {
                    next.extend(run.step(Signal::Opened { total: 0 }));
                    next.extend(run.step(Signal::Chunk(b"abc")));
                    next.extend(run.step(Signal::Completed));
                }
                Command::MakeExecutable { .. } => next.extend(run.step(Signal::Installed)),
                Command::Probe { .. } => next.extend(run.step(Signal::Probed { exists: true })),
                Command::SaveLedger(ledger) => {
                    saves += 1;
                    assert!(!ledger.is_locked());
                    assert_eq!(ledger.len(), 2);
                    next.extend(run.step(Signal::Saved));
                }
                _ => {}
            }
        }
        pending = next;
    }
    assert_eq!(saves, 1);
}
