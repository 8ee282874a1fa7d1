use aeco_launcher::attempt::{
    maintenance, platform_message, Attempt, AttemptAction, AttemptEvent, AttemptOutcome,
    ServerStatus, StartupOutcome,
};
use aeco_launcher::error::{Failure, FailureKind, PatchErrorLevel};
use aeco_launcher::manifest::{Directory, FileEntry, ManifestNode};
use aeco_launcher::message::{Fraction, PatchMessage, PatchStatus};
use aeco_launcher::sync::SyncSession;
use aeco_launcher::urls::ServerUrls;

fn urls() -> ServerUrls {
    ServerUrls::new("https://example.com/", "game.zip").expect("a layout")
}

fn attempt() -> Attempt {
    Attempt::new(urls(), "linux-x86_64".to_string(), Some("launcher".to_string()))
}

fn info(text: &str) -> AttemptAction {
    AttemptAction::Notify(PatchMessage::Info(text.to_string()))
}

fn downloaded(text: &str) -> AttemptEvent {
    AttemptEvent::Downloaded(text.as_bytes().to_vec())
}

fn failed() -> AttemptEvent {
    AttemptEvent::Failed("why".to_string())
}

fn file(name: &str, digest: &str) -> ManifestNode {
    ManifestNode::File(FileEntry { name: name.to_string(), digest: digest.to_string() })
}

fn directory(name: &str, children: Vec<ManifestNode>) -> Directory {
    Directory { name: name.to_string(), children }
}

/// Brings an attempt to the point where it waits for the server's status.
fn until_status(attempt: &mut Attempt) {
    assert_eq!(attempt.start(), AttemptAction::FinishSelfUpdate);
    assert_eq!(
        attempt.step(AttemptEvent::StartupDone(StartupOutcome::Continue)),
        info("Checking server status")
    );
    assert_eq!(
        attempt.step(AttemptEvent::Done),
        AttemptAction::QueryStatus { url: "https://example.com/meta/status.json".to_string() }
    );
}

/// Brings an attempt to the point where it waits for the manifest.
fn until_manifest(attempt: &mut Attempt) {
    until_status(attempt);
    assert_eq!(attempt.step(downloaded("\"Online\"")), info("Server is online"));
    assert_eq!(
        attempt.step(AttemptEvent::Done),
        AttemptAction::Notify(PatchMessage::Downloading(
            "Checking game installation".to_string(),
            Fraction { done: 1, of: 1 },
        ))
    );
    assert_eq!(attempt.step(AttemptEvent::Done), AttemptAction::CheckInstallation);
    assert_eq!(
        attempt.step(AttemptEvent::Installed(true)),
        AttemptAction::FetchManifest { url: "https://example.com/meta/patchlist.json".to_string() }
    );
}

fn failure_of(action: AttemptAction) -> (FailureKind, String, PatchErrorLevel) {
    match action {
        AttemptAction::Complete(AttemptOutcome::Failed(error)) => {
            (error.internal_error.kind, error.friendly_message, error.level)
        }
        other => panic!("expected a failed attempt, got {other:?}"),
    }
}

const MANIFEST: &str = r#"{"name": "", "children": [
    {"type": "directory", "name": "all", "children": [
        {"type": "file", "name": "a.txt", "digest": "X"}]},
    {"type": "directory", "name": "linux-x86_64", "children": [
        {"type": "file", "name": "b.bin", "digest": "Y"}]},
    {"type": "directory", "name": "windows-x86_64", "children": [
        {"type": "file", "name": "c.exe", "digest": "Z"}]}
]}"#;

#[test]
fn maintenance_ends_the_attempt_before_the_installation_is_looked_at() {
    let mut attempt = attempt();
    until_status(&mut attempt);
    let action = attempt.step(downloaded("\"Maintenance\""));
    assert_eq!(action, AttemptAction::Complete(AttemptOutcome::Failed(maintenance())));
    assert_eq!(
        failure_of(action),
        (
            FailureKind::Maintenance,
            "Server is down for maintenance".to_string(),
            PatchErrorLevel::Low
        )
    );
    assert!(attempt.is_over());
    assert!(!attempt.expects(&AttemptEvent::Done));
    assert!(!attempt.expects(&AttemptEvent::Installed(true)));
}

#[test]
fn the_status_may_be_given_as_it_is_known() {
    let mut attempt = attempt();
    until_status(&mut attempt);
    let action = attempt.status_known(Ok(ServerStatus::Maintenance));
    assert_eq!(failure_of(action).2, PatchErrorLevel::Low);
    assert!(attempt.is_over());
}

#[test]
fn a_status_that_cannot_be_had_fails_the_attempt() {
    let mut attempt = attempt();
    until_status(&mut attempt);
    assert_eq!(
        failure_of(attempt.step(failed())),
        (FailureKind::Network, "Failed to get server status".to_string(), PatchErrorLevel::High)
    );
}

#[test]
fn a_status_that_cannot_be_read_fails_the_attempt() {
    let mut attempt = attempt();
    until_status(&mut attempt);
    assert_eq!(
        failure_of(attempt.step(downloaded("<html>"))),
        (FailureKind::Parse, "Failed to parse server status".to_string(), PatchErrorLevel::High)
    );
}

#[test]
fn a_failed_check_at_startup_fails_the_attempt() {
    let mut attempt = attempt();
    attempt.start();
    let action = attempt.step(AttemptEvent::StartupDone(StartupOutcome::Failed {
        failure: Failure::new(FailureKind::Filesystem, "Couldn't copy the launcher", "locked"),
        friendly_message: "Failed to overwrite patcher".to_string(),
    }));
    assert_eq!(
        failure_of(action),
        (FailureKind::Filesystem, "Failed to overwrite patcher".to_string(), PatchErrorLevel::High)
    );
}

#[test]
fn a_restored_launcher_takes_over_before_anything_is_asked() {
    let mut attempt = attempt();
    attempt.start();
    let action =
        attempt.step(AttemptEvent::StartupDone(StartupOutcome::Relaunch("launcher".to_string())));
    assert_eq!(
        action,
        AttemptAction::Complete(AttemptOutcome::Relaunch {
            name: "launcher".to_string(),
            restored: true,
        })
    );
    assert!(attempt.is_over());
}

#[test]
fn a_missing_installation_is_installed_first() {
    let mut attempt = attempt();
    until_status(&mut attempt);
    attempt.step(downloaded("\"Online\""));
    attempt.step(AttemptEvent::Done);
    attempt.step(AttemptEvent::Done);
    assert_eq!(
        attempt.step(AttemptEvent::Installed(false)),
        AttemptAction::Notify(PatchMessage::Downloading(
            "Downloading game since it is not installed".to_string(),
            Fraction { done: 0, of: 1 },
        ))
    );
    assert_eq!(
        attempt.step(AttemptEvent::Done),
        AttemptAction::DownloadBase { url: "https://example.com/base/game.zip".to_string() }
    );
    assert_eq!(attempt.step(AttemptEvent::Done), AttemptAction::UnpackBase);
    assert_eq!(
        attempt.step(AttemptEvent::Done),
        AttemptAction::FetchManifest { url: "https://example.com/meta/patchlist.json".to_string() }
    );
}

#[test]
fn a_failed_installation_says_what_failed() {
    let until_download = || {
        let mut attempt = attempt();
        until_status(&mut attempt);
        attempt.step(downloaded("\"Online\""));
        attempt.step(AttemptEvent::Done);
        attempt.step(AttemptEvent::Done);
        attempt.step(AttemptEvent::Installed(false));
        attempt.step(AttemptEvent::Done);
        attempt
    };
    let mut downloading = until_download();
    assert_eq!(
        failure_of(downloading.step(failed())),
        (
            FailureKind::Network,
            "Failed while downloading base game".to_string(),
            PatchErrorLevel::High
        )
    );
    let mut unpacking = until_download();
    assert_eq!(unpacking.step(AttemptEvent::Done), AttemptAction::UnpackBase);
    assert_eq!(
        failure_of(unpacking.step(failed())),
        (
            FailureKind::Filesystem,
            "Failed while unpacking base game".to_string(),
            PatchErrorLevel::High
        )
    );
}

#[test]
fn an_installation_that_cannot_be_looked_for_fails_the_attempt() {
    let mut attempt = attempt();
    until_status(&mut attempt);
    attempt.step(downloaded("\"Online\""));
    attempt.step(AttemptEvent::Done);
    attempt.step(AttemptEvent::Done);
    assert_eq!(
        failure_of(attempt.step(failed())),
        (
            FailureKind::Filesystem,
            "Failed to check the game installation".to_string(),
            PatchErrorLevel::High
        )
    );
}

#[test]
fn a_manifest_that_cannot_be_had_or_read_fails_the_attempt() {
    let mut attempt1 = attempt();
    until_manifest(&mut attempt1);
    assert_eq!(
        failure_of(attempt1.step(failed())),
        (FailureKind::Network, "Failed to get patch info".to_string(), PatchErrorLevel::High)
    );
    let mut attempt2 = attempt();
    until_manifest(&mut attempt2);
    assert_eq!(
        failure_of(attempt2.step(downloaded("{}"))),
        (FailureKind::Parse, "Failed to parse patch info".to_string(), PatchErrorLevel::High)
    );
}

#[test]
fn the_common_subtree_comes_first_and_the_host_second() {
    let mut attempt = attempt();
    until_manifest(&mut attempt);
    let all = directory("all", vec![file("a.txt", "X")]);
    let host = directory("linux-x86_64", vec![file("b.bin", "Y")]);
    let first = attempt.step(downloaded(MANIFEST));
    assert_eq!(
        first,
        AttemptAction::SyncPlatform(SyncSession::new(
            &all,
            "https://example.com/patch/all/".to_string(),
            Some("launcher".to_string()),
        ))
    );
    assert!(attempt.expects(&AttemptEvent::Synced { pending: None }));
    let second = attempt.step(AttemptEvent::Synced { pending: None });
    assert_eq!(
        second,
        AttemptAction::SyncPlatform(SyncSession::new(
            &host,
            "https://example.com/patch/linux-x86_64/".to_string(),
            Some("launcher".to_string()),
        ))
    );
    assert_eq!(
        attempt.step(AttemptEvent::Synced { pending: None }),
        AttemptAction::Notify(PatchMessage::PatchStatus(PatchStatus::Finished))
    );
    assert_eq!(
        attempt.step(AttemptEvent::Done),
        AttemptAction::Complete(AttemptOutcome::Completed)
    );
    assert!(attempt.is_over());
}

#[test]
fn a_platform_without_a_subtree_is_passed_over() {
    let mut attempt =
        Attempt::new(urls(), "macos-aarch64".to_string(), Some("launcher".to_string()));
    until_manifest(&mut attempt);
    assert!(matches!(attempt.step(downloaded(MANIFEST)), AttemptAction::SyncPlatform(_)));
    assert_eq!(
        attempt.step(AttemptEvent::Synced { pending: None }),
        AttemptAction::Notify(PatchMessage::PatchStatus(PatchStatus::Finished))
    );
}

#[test]
fn a_manifest_without_any_platform_finishes_at_once() {
    let mut attempt = attempt();
    until_manifest(&mut attempt);
    assert_eq!(
        attempt.step(downloaded(r#"{"name": "", "children": []}"#)),
        AttemptAction::Notify(PatchMessage::PatchStatus(PatchStatus::Finished))
    );
    assert_eq!(
        attempt.step(AttemptEvent::Done),
        AttemptAction::Complete(AttemptOutcome::Completed)
    );
}

#[test]
fn a_pending_replacement_takes_over_at_the_end() {
    let mut attempt = attempt();
    until_manifest(&mut attempt);
    attempt.step(downloaded(MANIFEST));
    attempt.step(AttemptEvent::Synced { pending: Some("launcher.aecoupdate".to_string()) });
    assert_eq!(
        attempt.step(AttemptEvent::Synced { pending: None }),
        AttemptAction::Notify(PatchMessage::PatchStatus(PatchStatus::Finished))
    );
    assert_eq!(
        attempt.step(AttemptEvent::Done),
        AttemptAction::Complete(AttemptOutcome::Relaunch {
            name: "launcher.aecoupdate".to_string(),
            restored: false,
        })
    );
}

#[test]
fn a_failed_session_fails_the_attempt_for_its_platform() {
    let mut attempt = attempt();
    until_manifest(&mut attempt);
    attempt.step(downloaded(MANIFEST));
    assert!(!attempt.expects(&failed()));
    assert_eq!(
        failure_of(attempt.step(AttemptEvent::SessionFailed(Failure::new(
            FailureKind::Filesystem,
            "Couldn't write the file",
            "disk full",
        )))),
        (
            FailureKind::Filesystem,
            "Failed to check files for platform 'all'".to_string(),
            PatchErrorLevel::High
        )
    );
    let mut other = self::attempt();
    until_manifest(&mut other);
    other.step(downloaded(MANIFEST));
    other.step(AttemptEvent::Synced { pending: None });
    assert_eq!(
        failure_of(other.step(AttemptEvent::SessionFailed(Failure::new(
            FailureKind::Network,
            "Couldn't download the file",
            "timed out",
        ))))
        .1,
        "Failed to check files for platform 'linux-x86_64'"
    );
}

#[test]
fn the_attempt_expects_what_it_asked_for() {
    let mut attempt = attempt();
    assert!(attempt.expects(&AttemptEvent::Done));
    assert!(!attempt.expects(&AttemptEvent::Installed(true)));
    attempt.start();
    assert!(attempt.expects(&AttemptEvent::StartupDone(StartupOutcome::Continue)));
    assert!(!attempt.expects(&AttemptEvent::Done));
    attempt.step(AttemptEvent::StartupDone(StartupOutcome::Continue));
    assert!(attempt.expects(&AttemptEvent::Done));
    assert!(!attempt.expects(&downloaded("\"Online\"")));
    attempt.step(AttemptEvent::Done);
    assert!(attempt.expects(&downloaded("\"Online\"")));
    assert!(attempt.expects(&failed()));
    assert!(!attempt.expects(&AttemptEvent::Done));
}

#[test]
fn an_outcome_that_was_not_asked_for_ends_the_attempt() {
    let mut attempt = attempt();
    attempt.start();
    assert_eq!(
        failure_of(attempt.step(AttemptEvent::Installed(true))),
        (
            FailureKind::Filesystem,
            "The launcher lost track of its work".to_string(),
            PatchErrorLevel::High
        )
    );
    assert!(attempt.is_over());
    assert_eq!(
        failure_of(attempt.step(AttemptEvent::Done)).1,
        "The launcher lost track of its work"
    );
}

#[test]
fn an_attempt_may_be_started_by_the_news_that_it_may_go_on() {
    let mut started = attempt();
    let mut stepped = attempt();
    assert_eq!(started.start(), stepped.step(AttemptEvent::Done));
    assert_eq!(started, stepped);
}

#[test]
fn a_session_that_is_handed_out_can_be_run() {
    let mut attempt = attempt();
    until_manifest(&mut attempt);
    match attempt.step(downloaded(MANIFEST)) {
        AttemptAction::SyncPlatform(mut session) => {
            assert!(!session.is_over());
            assert_eq!(session.total(), 1);
            assert_eq!(session.checked(), 0);
            assert_eq!(
                session.start(),
                aeco_launcher::sync::Action::InspectFile { path: vec!["a.txt".to_string()] }
            );
        }
        other => panic!("expected a session, got {other:?}"),
    }
}

#[test]
fn the_words_for_a_failed_platform() {
    assert_eq!(platform_message("all"), "Failed to check files for platform 'all'");
    assert_eq!(platform_message(""), "Failed to check files for platform ''");
}
