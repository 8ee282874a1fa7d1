use aeco_launcher::error::{
    classify, severity, ArchiveFault, Failure, FailureKind, PatchErrorLevel, ToPatchError,
};

#[test]
fn maintenance_is_the_only_low_severity() {
    assert_eq!(severity(FailureKind::Maintenance), PatchErrorLevel::Low);
    assert_eq!(severity(FailureKind::Network), PatchErrorLevel::High);
    assert_eq!(severity(FailureKind::Parse), PatchErrorLevel::High);
    assert_eq!(severity(FailureKind::Filesystem), PatchErrorLevel::High);
    assert_eq!(severity(FailureKind::Archive(ArchiveFault::NotPresent)), PatchErrorLevel::High);
    assert_eq!(severity(FailureKind::Archive(ArchiveFault::Other)), PatchErrorLevel::High);
    assert_eq!(severity(FailureKind::ProcessLaunch), PatchErrorLevel::High);
}

#[test]
fn a_failure_keeps_what_it_is_made_of() {
    let failure = Failure::new(FailureKind::Network, "Couldn't download", "timed out");
    assert_eq!(failure.kind, FailureKind::Network);
    assert_eq!(failure.message, "Couldn't download");
    assert_eq!(failure.cause, "timed out");
}

#[test]
fn a_failure_becomes_a_high_error_by_default() {
    let error = Failure::new(FailureKind::Maintenance, "m", "c").to_patch_error("Shown");
    assert_eq!(error.level, PatchErrorLevel::High);
    assert_eq!(error.friendly_message, "Shown");
    assert_eq!(error.internal_error, Failure::new(FailureKind::Maintenance, "m", "c"));
}

#[test]
fn a_failure_becomes_an_error_of_the_level_asked_for() {
    let low = Failure::new(FailureKind::Network, "m", "c")
        .to_patch_error_level("Shown", PatchErrorLevel::Low);
    assert_eq!(low.level, PatchErrorLevel::Low);
    let high = Failure::new(FailureKind::Network, "m", "c")
        .to_patch_error_level("Shown", PatchErrorLevel::High);
    assert_eq!(high.level, PatchErrorLevel::High);
    assert_eq!(high.friendly_message, "Shown");
}

#[test]
fn classification_follows_the_kind() {
    let maintenance = classify(Failure::new(FailureKind::Maintenance, "m", ""), "Down");
    assert_eq!(maintenance.level, PatchErrorLevel::Low);
    assert_eq!(maintenance.friendly_message, "Down");
    let network = classify(Failure::new(FailureKind::Network, "m", "c"), "Broken");
    assert_eq!(network.level, PatchErrorLevel::High);
    assert_eq!(network.internal_error.cause, "c");
    let launch = classify(Failure::new(FailureKind::ProcessLaunch, "m", "c"), "Broken");
    assert_eq!(launch.level, PatchErrorLevel::High);
}
