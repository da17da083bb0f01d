use bootstrapper::bootstrap::{
    Action, BootstrapFailure, Bootstrapper, Event, LaunchError, Phase,
};
use bootstrapper::launch::{ArchiveError, JavaError, LauncherBinary};
use bootstrapper::models::{BootstrapSettings, UpdateMeta};
use bootstrapper::platform::{choose_base_dir, BootstrapError, HomeDirError};
use bootstrapper::report::dialog_message;

fn boot() -> Bootstrapper {
    Bootstrapper::create(
        BootstrapSettings {
            update_url: String::from("http://x/meta.json"),
            app_name: String::from("app"),
            org_name: String::from("org"),
        },
        false,
        String::from("/base"),
        vec![String::from("--lang"), String::from("en")],
    )
}

fn names(list: &[&str]) -> Vec<String> {
    list.iter().map(|s| String::from(*s)).collect()
}

#[test]
fn create_fixes_directories() {
    let b = boot();
    assert_eq!(b.base_dir().as_str(), "/base");
    assert_eq!(b.binaries_dir().as_str(), "/base/launcher");
}

#[test]
fn start_creates_binaries_dir() {
    let b = boot();
    let (phase, action) = b.start();
    assert!(matches!(phase, Phase::EnsureDirectory));
    match action {
        Action::CreateDir(d) => assert_eq!(d, "/base/launcher"),
        _ => panic!("expected a directory creation"),
    }
}

#[test]
fn create_dir_failure_is_fatal() {
    let b = boot();
    let (phase, action) = b.step(
        Phase::EnsureDirectory,
        Event::DirCreated(Err(String::from("permission denied"))),
    );
    assert!(matches!(
        phase,
        Phase::Failed(BootstrapFailure::CreateDirFailed(m)) if m == "permission denied"
    ));
    assert!(matches!(action, Action::Stop));
}

#[test]
fn cleanup_selects_exactly_temp_files() {
    let b = boot();
    let (phase, action) = b.step(
        Phase::Cleanup,
        Event::DirScanned(Ok(names(&["x.tmp", "y.jar", ".tmp", "z.tmp", "w.tmp.jar"]))),
    );
    assert!(matches!(phase, Phase::RemovingTemp));
    match action {
        Action::RemoveTempFiles(ps) => {
            assert_eq!(ps, vec!["/base/launcher/x.tmp", "/base/launcher/z.tmp"]);
        },
        _ => panic!("expected temporary files to be removed"),
    }
}

#[test]
fn cleanup_scan_failure_is_fatal() {
    let b = boot();
    let (phase, _) = b.step(Phase::Cleanup, Event::DirScanned(Err(String::from("gone"))));
    assert!(matches!(phase, Phase::Failed(BootstrapFailure::CleanupFailed(m)) if m == "gone"));
}

#[test]
fn version_gate_fatal_on_old_runtime() {
    let b = boot();
    let (phase, action) = b.step(
        Phase::VersionGate,
        Event::RuntimeVersionProbed(Ok(b"java version \"1.7.0_80\"".to_vec())),
    );
    assert!(matches!(
        phase,
        Phase::Failed(BootstrapFailure::Launch(LaunchError::InvalidJava(m)))
            if m == "Need at least Java 8"
    ));
    assert!(matches!(action, Action::Stop));
}

#[test]
fn version_gate_passes_new_runtime() {
    let b = boot();
    let (phase, action) = b.step(
        Phase::VersionGate,
        Event::RuntimeVersionProbed(Ok(b"openjdk version \"11.0.9\"".to_vec())),
    );
    assert!(matches!(phase, Phase::Discover));
    assert!(matches!(action, Action::ScanDir(d) if d == "/base/launcher"));
}

#[test]
fn version_gate_inconclusive_probe_continues() {
    let b = boot();
    // the probe command failed outright
    let (phase, _) = b.step(
        Phase::VersionGate,
        Event::RuntimeVersionProbed(Err(String::from("command not found"))),
    );
    assert!(matches!(phase, Phase::Discover));
    // the probe ran but printed nothing recognizable
    let (phase2, _) = b.step(
        Phase::VersionGate,
        Event::RuntimeVersionProbed(Ok(b"no version here".to_vec())),
    );
    assert!(matches!(phase2, Phase::Discover));
}

#[test]
fn discovery_with_artifact_never_fetches() {
    let b = boot();
    let (phase, action) = b.step(Phase::Discover, Event::DirScanned(Ok(names(&["a.jar"]))));
    assert!(matches!(phase, Phase::Select { next: 0, .. }));
    match action {
        Action::TestArtifact(p) => assert_eq!(p, "/base/launcher/a.jar"),
        _ => panic!("a pre-existing artifact must be tested, not fetched"),
    }
}

#[test]
fn discovery_empty_triggers_acquire() {
    let b = boot();
    let (phase, action) = b.step(Phase::Discover, Event::DirScanned(Ok(Vec::new())));
    assert!(matches!(phase, Phase::AwaitMetadata));
    assert!(matches!(action, Action::FetchMetadata(u) if u == "http://x/meta.json"));
}

#[test]
fn select_first_valid_and_prune_corrupt() {
    let b = boot();
    // two candidates, in enumeration order
    let (phase, action) = b.step(
        Phase::Discover,
        Event::DirScanned(Ok(names(&["corrupt.jar", "valid.jar"]))),
    );
    assert!(matches!(action, Action::TestArtifact(p) if p == "/base/launcher/corrupt.jar"));
    // the first candidate fails its structural test
    let (phase, action) = b.step(phase, Event::ArtifactTested(Ok(false)));
    assert!(matches!(phase, Phase::Select { next: 1, .. }));
    assert!(matches!(action, Action::TestArtifact(p) if p == "/base/launcher/valid.jar"));
    // the second passes: it becomes the working handle, the corrupt
    // one is pruned, never the reverse
    let (phase, action) = b.step(phase, Event::ArtifactTested(Ok(true)));
    assert!(matches!(phase, Phase::Prune { working: 1, next: 0, .. }));
    assert!(matches!(action, Action::DeleteArtifact(p) if p == "/base/launcher/corrupt.jar"));
    // pruning done: the working handle is launched
    let (phase, action) = b.step(phase, Event::ArtifactDeleted(Ok(())));
    assert!(matches!(phase, Phase::AwaitLaunch));
    match action {
        Action::RunLauncher(l) => assert_eq!(l.jar_path, "/base/launcher/valid.jar"),
        _ => panic!("expected the launch"),
    }
}

#[test]
fn no_candidate_validates_is_missing_binaries() {
    let b = boot();
    let (phase, _) = b.step(Phase::Discover, Event::DirScanned(Ok(names(&["empty.jar"]))));
    let zero_byte_outcome = LauncherBinary::new(String::from("/base/launcher/empty.jar"))
        .test_jar(&Vec::new());
    assert!(matches!(zero_byte_outcome, Err(ArchiveError::Malformed)));
    let (phase, action) = b.step(phase, Event::ArtifactTested(zero_byte_outcome));
    assert!(matches!(
        phase,
        Phase::Failed(BootstrapFailure::Launch(LaunchError::MissingBinaries))
    ));
    assert!(matches!(action, Action::Stop));
}

#[test]
fn prune_failure_is_fatal() {
    let b = boot();
    let (phase, _) = b.step(
        Phase::Discover,
        Event::DirScanned(Ok(names(&["good.jar", "stale.jar"]))),
    );
    let (phase, _) = b.step(phase, Event::ArtifactTested(Ok(true)));
    assert!(matches!(phase, Phase::Prune { working: 0, next: 1, .. }));
    let (phase, _) = b.step(phase, Event::ArtifactDeleted(Err(String::from("locked"))));
    assert!(matches!(
        phase,
        Phase::Failed(BootstrapFailure::Launch(LaunchError::IoError(m))) if m == "locked"
    ));
}

#[test]
fn acquire_end_to_end_is_atomic() {
    let b = boot();
    // empty artifacts directory: acquisition begins
    let (phase, action) = b.step(Phase::Discover, Event::DirScanned(Ok(Vec::new())));
    assert!(matches!(action, Action::FetchMetadata(_)));
    // the metadata names version 5.0
    let (phase, action) = b.step(
        phase,
        Event::MetadataFetched(Ok(UpdateMeta {
            version: String::from("5.0"),
            url: String::from("http://x/5.0.jar"),
        })),
    );
    match &action {
        Action::DownloadFile { url, dest } => {
            assert_eq!(url, "http://x/5.0.jar");
            // the transfer lands under the temporary suffix
            assert_eq!(dest, "/base/launcher/5.0.tmp");
        },
        _ => panic!("expected the download"),
    }
    // the transfer completes: the file atomically takes its final name
    let (phase, action) = b.step(phase, Event::FileDownloaded(Ok(())));
    match &action {
        Action::RenameFile { from, to } => {
            assert_eq!(from, "/base/launcher/5.0.tmp");
            assert_eq!(to, "/base/launcher/5.0.jar");
            assert!(!to.ends_with(".tmp"));
        },
        _ => panic!("expected the rename"),
    }
    // exactly one candidate exists now, under its final name
    let (phase, action) = b.step(phase, Event::FileRenamed(Ok(())));
    assert!(matches!(phase, Phase::Select { next: 0, .. }));
    assert!(matches!(action, Action::TestArtifact(p) if p == "/base/launcher/5.0.jar"));
    // it validates and is launched with the full invocation
    let (phase, action) = b.step(phase, Event::ArtifactTested(Ok(true)));
    assert!(matches!(phase, Phase::AwaitLaunch));
    match action {
        Action::RunLauncher(l) => {
            assert_eq!(l.jar_path, "/base/launcher/5.0.jar");
            assert_eq!(
                l.args,
                vec!["--dir", "/base", "--bootstrap-version", "1", "--lang", "en"]
            );
            assert_eq!(
                l.command_line(),
                vec![
                    "-jar",
                    "/base/launcher/5.0.jar",
                    "--dir",
                    "/base",
                    "--bootstrap-version",
                    "1",
                    "--lang",
                    "en"
                ]
            );
        },
        _ => panic!("expected the launch"),
    }
    // the runtime exits cleanly: the run is done
    let (phase, action) = b.step(phase, Event::LauncherFinished(Ok(Some(0))));
    assert!(matches!(phase, Phase::Done));
    assert!(matches!(action, Action::Stop));
}

#[test]
fn portable_mode_adds_marker_argument() {
    let b = Bootstrapper::create(
        BootstrapSettings {
            update_url: String::from("http://x/meta.json"),
            app_name: String::from("app"),
            org_name: String::from("org"),
        },
        true,
        String::from("."),
        Vec::new(),
    );
    let (phase, _) = b.step(Phase::Discover, Event::DirScanned(Ok(names(&["a.jar"]))));
    let (_, action) = b.step(phase, Event::ArtifactTested(Ok(true)));
    match action {
        Action::RunLauncher(l) => {
            assert_eq!(l.args, vec!["--dir", ".", "--portable", "--bootstrap-version", "1"]);
        },
        _ => panic!("expected the launch"),
    }
}

#[test]
fn download_failures_are_fatal() {
    let b = boot();
    let (phase, _) = b.step(Phase::Discover, Event::DirScanned(Ok(Vec::new())));
    let (phase2, _) = b.step(
        Phase::AwaitMetadata,
        Event::MetadataFetched(Err(String::from("404"))),
    );
    assert!(matches!(
        phase2,
        Phase::Failed(BootstrapFailure::Launch(LaunchError::FailedDownload(m))) if m == "404"
    ));
    let (phase3, _) = b.step(
        phase,
        Event::MetadataFetched(Ok(UpdateMeta {
            version: String::from("5.0"),
            url: String::from("http://x/5.0.jar"),
        })),
    );
    let (phase4, _) = b.step(phase3, Event::FileDownloaded(Err(String::from("reset"))));
    assert!(matches!(
        phase4,
        Phase::Failed(BootstrapFailure::Launch(LaunchError::FailedDownload(m))) if m == "reset"
    ));
}

#[test]
fn launcher_outcomes_are_distinguished() {
    let b = boot();
    let (phase, _) = b.step(
        Phase::AwaitLaunch,
        Event::LauncherFinished(Ok(Some(2))),
    );
    assert!(matches!(
        phase,
        Phase::Failed(BootstrapFailure::Launch(LaunchError::LauncherExit(
            JavaError::ExitCode(2)
        )))
    ));
    let (phase, _) = b.step(Phase::AwaitLaunch, Event::LauncherFinished(Ok(None)));
    assert!(matches!(
        phase,
        Phase::Failed(BootstrapFailure::Launch(LaunchError::LauncherExit(JavaError::Signal)))
    ));
    let (phase, _) = b.step(
        Phase::AwaitLaunch,
        Event::LauncherFinished(Err(String::from("no java"))),
    );
    assert!(matches!(
        phase,
        Phase::Failed(BootstrapFailure::Launch(LaunchError::LauncherExit(
            JavaError::IoError(m)
        ))) if m == "no java"
    ));
}

#[test]
fn terminal_phases_stay_terminal() {
    let b = boot();
    let (phase, action) = b.step(Phase::Done, Event::TempFilesRemoved);
    assert!(matches!(phase, Phase::Done));
    assert!(matches!(action, Action::Stop));
    let (phase, _) = b.step(
        Phase::Failed(BootstrapFailure::UnexpectedEvent),
        Event::TempFilesRemoved,
    );
    assert!(matches!(phase, Phase::Failed(BootstrapFailure::UnexpectedEvent)));
}

#[test]
fn mismatched_event_is_rejected() {
    let b = boot();
    let (phase, action) = b.step(Phase::EnsureDirectory, Event::TempFilesRemoved);
    assert!(matches!(phase, Phase::Failed(BootstrapFailure::UnexpectedEvent)));
    assert!(matches!(action, Action::Stop));
}

#[test]
fn base_dir_choice() {
    assert_eq!(choose_base_dir(true, Err(HomeDirError::NotPresent)).unwrap(), ".");
    assert_eq!(
        choose_base_dir(false, Ok(String::from("/home/u/.local/share/app"))).unwrap(),
        "/home/u/.local/share/app"
    );
    assert_eq!(
        choose_base_dir(false, Err(HomeDirError::NoPath)).unwrap_err(),
        BootstrapError::HomeDirMissing
    );
}

#[test]
fn dialog_message_breaks_cause_chain() {
    assert_eq!(dialog_message("IO error: oops"), "IO error:\noops");
    assert_eq!(dialog_message("a: b: c"), "a:\nb:\nc");
    assert_eq!(dialog_message("no separator"), "no separator");
    assert_eq!(dialog_message(""), "");
    assert_eq!(dialog_message(": lead"), ":\nlead");
}
