use aeco_launcher::error::FailureKind;
use aeco_launcher::self_update::{
    carries_update_extension, restored_file_name, update_file_name, StartupAction, StartupCheck,
    StartupEvent, MAX_ATTEMPTS, RETRY_DELAY_MILLIS, UPDATE_FILE_EXTENSION,
};

fn failed(cause: &str) -> StartupEvent {
    StartupEvent::Failed(cause.to_string())
}

#[test]
fn the_replacement_is_named_after_the_launcher() {
    assert_eq!(update_file_name("launcher"), "launcher.aecoupdate");
    assert_eq!(update_file_name("launcher.exe"), "launcher.exe.aecoupdate");
    assert_eq!(update_file_name(""), ".aecoupdate");
    assert_eq!(UPDATE_FILE_EXTENSION, "aecoupdate");
}

#[test]
fn the_launcher_is_named_by_the_replacement() {
    assert_eq!(restored_file_name("launcher.aecoupdate"), Some("launcher".to_string()));
    assert_eq!(restored_file_name("launcher.exe.aecoupdate"), Some("launcher.exe".to_string()));
    assert_eq!(restored_file_name("a.aecoupdate"), Some("a".to_string()));
    assert_eq!(
        restored_file_name("x.aecoupdate.aecoupdate"),
        Some("x.aecoupdate".to_string())
    );
}

#[test]
fn other_names_are_no_replacements() {
    assert_eq!(restored_file_name("launcher"), None);
    assert_eq!(restored_file_name("launcher.exe"), None);
    assert_eq!(restored_file_name(".aecoupdate"), None);
    assert_eq!(restored_file_name("aecoupdate"), None);
    assert_eq!(restored_file_name("launcher.aecoupdat"), None);
    assert_eq!(restored_file_name("launcher.aecoupdate.exe"), None);
    assert_eq!(restored_file_name("launcher.AECOUPDATE"), None);
    assert_eq!(restored_file_name("launcheraecoupdate"), None);
    assert_eq!(restored_file_name(""), None);
    assert!(carries_update_extension("launcher.aecoupdate"));
    assert!(!carries_update_extension("launcher"));
    assert!(!carries_update_extension(".aecoupdate"));
}

#[test]
fn the_two_names_lead_to_each_other() {
    for name in ["launcher", "launcher.exe", "a", "größer.bin", "x.aecoupdate"] {
        assert_eq!(restored_file_name(&update_file_name(name)), Some(name.to_string()));
    }
}

#[test]
fn five_failed_copies_are_fatal_and_launch_nothing() {
    let (mut check, first) = StartupCheck::begin(Some("launcher.aecoupdate"));
    let copy = StartupAction::CopySelf { to: "launcher".to_string() };
    let pause = StartupAction::Wait { millis: 250 };
    assert_eq!(first, copy);
    let mut actions = Vec::new();
    for attempt in 1..=5 {
        let action = check.step(failed(&format!("locked {attempt}")));
        if attempt < 5 {
            assert_eq!(action, pause);
            assert!(!check.is_over());
            let again = check.step(StartupEvent::Done);
            assert_eq!(again, copy);
            actions.push(action);
            actions.push(again);
        } else {
            actions.push(action);
        }
    }
    assert_eq!(actions.len(), 9);
    assert_eq!(actions.iter().filter(|a| **a == copy).count(), 4);
    assert_eq!(actions.iter().filter(|a| **a == pause).count(), 4);
    match &actions[8] {
        StartupAction::Abort { failure, friendly_message } => {
            assert_eq!(friendly_message, "Failed to overwrite patcher");
            assert_eq!(failure.kind, FailureKind::Filesystem);
            assert_eq!(failure.cause, "locked 5");
        }
        other => panic!("expected a failure, got {other:?}"),
    }
    assert!(actions.iter().all(|a| !matches!(a, StartupAction::Relaunch { .. })));
    assert!(check.is_over());
    assert_eq!(MAX_ATTEMPTS, 5);
    assert_eq!(RETRY_DELAY_MILLIS, 250);
}

#[test]
fn a_copy_that_succeeds_at_once_takes_over() {
    let (mut check, first) = StartupCheck::begin(Some("launcher.exe.aecoupdate"));
    assert_eq!(first, StartupAction::CopySelf { to: "launcher.exe".to_string() });
    assert_eq!(
        check.step(StartupEvent::Done),
        StartupAction::MarkExecutable { name: "launcher.exe".to_string() }
    );
    assert_eq!(
        check.step(StartupEvent::Done),
        StartupAction::Relaunch { name: "launcher.exe".to_string() }
    );
    assert!(check.is_over());
}

#[test]
fn a_copy_that_succeeds_at_the_fifth_try_takes_over() {
    let (mut check, _) = StartupCheck::begin(Some("launcher.aecoupdate"));
    for _ in 1..5 {
        assert_eq!(check.step(failed("locked")), StartupAction::Wait { millis: 250 });
        assert_eq!(
            check.step(StartupEvent::Done),
            StartupAction::CopySelf { to: "launcher".to_string() }
        );
    }
    assert_eq!(
        check.step(StartupEvent::Done),
        StartupAction::MarkExecutable { name: "launcher".to_string() }
    );
    assert_eq!(
        check.step(StartupEvent::Done),
        StartupAction::Relaunch { name: "launcher".to_string() }
    );
}

#[test]
fn a_restored_file_that_cannot_be_made_executable_is_fatal() {
    let (mut check, _) = StartupCheck::begin(Some("launcher.aecoupdate"));
    check.step(StartupEvent::Done);
    match check.step(failed("denied")) {
        StartupAction::Abort { failure, friendly_message } => {
            assert_eq!(friendly_message, "Failed to make patcher executable");
            assert_eq!(failure.cause, "denied");
        }
        other => panic!("expected a failure, got {other:?}"),
    }
    assert!(check.is_over());
}

#[test]
fn a_launcher_without_the_extension_looks_for_a_stray_replacement() {
    let (mut check, first) = StartupCheck::begin(Some("launcher"));
    assert_eq!(first, StartupAction::LookForStray { name: "launcher.aecoupdate".to_string() });
    assert_eq!(
        check.step(StartupEvent::Found(false)),
        StartupAction::Continue { complaint: None }
    );
    assert!(check.is_over());
}

#[test]
fn a_launcher_with_another_extension_looks_for_a_stray_replacement_too() {
    let (mut check, first) = StartupCheck::begin(Some("launcher.exe"));
    assert_eq!(first, StartupAction::LookForStray { name: "launcher.exe.aecoupdate".to_string() });
    assert_eq!(
        check.step(StartupEvent::Found(true)),
        StartupAction::RemoveStray { name: "launcher.exe.aecoupdate".to_string() }
    );
    assert_eq!(check.step(StartupEvent::Done), StartupAction::Continue { complaint: None });
}

#[test]
fn a_stray_replacement_that_cannot_be_removed_is_not_fatal() {
    let (mut check, _) = StartupCheck::begin(Some("launcher"));
    let remove = StartupAction::RemoveStray { name: "launcher.aecoupdate".to_string() };
    assert_eq!(check.step(StartupEvent::Found(true)), remove);
    for _ in 1..5 {
        assert_eq!(check.step(failed("locked")), StartupAction::Wait { millis: 250 });
        assert_eq!(check.step(StartupEvent::Done), remove);
    }
    match check.step(failed("still locked")) {
        StartupAction::Continue { complaint: Some(failure) } => {
            assert_eq!(failure.kind, FailureKind::Filesystem);
            assert_eq!(failure.message, "Failed to remove temporary launcher");
            assert_eq!(failure.cause, "still locked");
        }
        other => panic!("expected the check to go on, got {other:?}"),
    }
    assert!(check.is_over());
}

#[test]
fn a_stray_replacement_that_cannot_be_looked_for_is_not_fatal() {
    let (mut check, _) = StartupCheck::begin(Some("launcher"));
    match check.step(failed("denied")) {
        StartupAction::Continue { complaint: Some(failure) } => {
            assert_eq!(failure.message, "Failed to look for temporary launcher");
            assert_eq!(failure.cause, "denied");
        }
        other => panic!("expected the check to go on, got {other:?}"),
    }
    assert!(check.is_over());
}

#[test]
fn an_outcome_that_was_not_asked_for_ends_the_check() {
    let (mut check, _) = StartupCheck::begin(Some("launcher.aecoupdate"));
    assert!(check.expects(&StartupEvent::Done));
    assert!(check.expects(&failed("x")));
    assert!(!check.expects(&StartupEvent::Found(true)));
    match check.step(StartupEvent::Found(true)) {
        StartupAction::Abort { failure, friendly_message } => {
            assert_eq!(friendly_message, "The launcher lost track of its work");
            assert_eq!(failure.kind, FailureKind::Filesystem);
            assert_eq!(failure.message, "An outcome arrived out of turn");
        }
        other => panic!("expected a failure, got {other:?}"),
    }
    assert!(check.is_over());
    assert!(!check.expects(&StartupEvent::Done));
    assert!(matches!(check.step(StartupEvent::Done), StartupAction::Abort { .. }));
}

#[test]
fn a_launcher_without_a_readable_name_fails_the_check() {
    let (check, first) = StartupCheck::begin(None);
    match first {
        StartupAction::Abort { failure, friendly_message } => {
            assert_eq!(friendly_message, "Failed to remove temporary launcher");
            assert_eq!(failure.kind, FailureKind::Filesystem);
            assert_eq!(failure.message, "Failed to get launcher file name");
        }
        other => panic!("expected a failure, got {other:?}"),
    }
    assert!(check.is_over());
}
