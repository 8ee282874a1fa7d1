//! Failures, and how serious each is shown to be.

use vstd::prelude::*;
use vstd::string::*;

verus! {

/// How alarming a failure is shown to be. It changes the presentation only.
#[derive(Debug, Clone, Copy, PartialEq, Eq, Structural)]
pub enum PatchErrorLevel {
    /// Expected; shown as information.
    Low,
    /// Shown as an error.
    High,
}

/// The ways in which an archive store fails.
#[derive(Debug, Clone, Copy, PartialEq, Eq, Structural)]
pub enum ArchiveFault {
    NotPresent,
    Other,
}

/// The kinds of failure.
#[derive(Debug, Clone, Copy, PartialEq, Eq, Structural)]
pub enum FailureKind {
    Network,
    Parse,
    Filesystem,
    Archive(ArchiveFault),
    ProcessLaunch,
    Maintenance,
}

/// A failure: its kind, what was being done, and what the cause reported.
#[derive(Debug, PartialEq, Eq)]
pub struct Failure {
    pub kind: FailureKind,
    pub message: String,
    pub cause: String,
}

/// What the contracts say of a `Failure`: its texts are sequences of
/// characters.
pub struct FailureView {
    pub kind: FailureKind,
    pub message: Seq<char>,
    pub cause: Seq<char>,
}

impl View for Failure {
    type V = FailureView;

    open spec fn view(&self) -> FailureView {
        FailureView { kind: self.kind, message: self.message@, cause: self.cause@ }
    }
}

/// A failure as the user is told of it.
#[derive(Debug, PartialEq, Eq)]
pub struct PatchError {
    /// What went wrong, for the log.
    pub internal_error: Failure,
    /// The message that the presentation layer shows.
    pub friendly_message: String,
    /// How alarming the message is shown to be.
    pub level: PatchErrorLevel,
}

/// What the contracts say of a `PatchError`: its texts are sequences of
/// characters.
pub struct PatchErrorView {
    pub internal_error: FailureView,
    pub friendly_message: Seq<char>,
    pub level: PatchErrorLevel,
}

impl View for PatchError {
    type V = PatchErrorView;

    open spec fn view(&self) -> PatchErrorView {
        PatchErrorView {
            internal_error: self.internal_error@,
            friendly_message: self.friendly_message@,
            level: self.level,
        }
    }
}

/// The level at which a failure of the given kind is shown: maintenance is
/// expected, everything else is an error.
pub open spec fn level_of(kind: FailureKind) -> PatchErrorLevel {
    if kind == FailureKind::Maintenance {
        PatchErrorLevel::Low
    } else {
        PatchErrorLevel::High
    }
}

/// Conversion of a failure into what the user is told.
pub trait ToPatchError: Sized {
    /// The failure that the value stands for.
    spec fn failure(self) -> FailureView;

    /// Converts to a `PatchError` of level `High`.
    fn to_patch_error(self, friendly_message: &str) -> (e: PatchError)
        ensures
            e@ == (PatchErrorView {
                internal_error: self.failure(),
                friendly_message: friendly_message@,
                level: PatchErrorLevel::High,
            }),
    ;

    /// Converts to a `PatchError` of the given level.
    fn to_patch_error_level(self, friendly_message: &str, level: PatchErrorLevel) -> (e:
        PatchError)
        ensures
            e@ == (PatchErrorView {
                internal_error: self.failure(),
                friendly_message: friendly_message@,
                level,
            }),
    ;
}

impl ToPatchError for Failure {
    open spec fn failure(self) -> FailureView {
        self@
    }

    fn to_patch_error(self, friendly_message: &str) -> (e: PatchError) {
        self.to_patch_error_level(friendly_message, PatchErrorLevel::High)
    }

    fn to_patch_error_level(self, friendly_message: &str, level: PatchErrorLevel) -> (e:
        PatchError) {
        PatchError { internal_error: self, friendly_message: friendly_message.to_owned(), level }
    }
}

impl Failure {
    /// A failure of the given kind.
    pub fn new(kind: FailureKind, message: &str, cause: &str) -> (f: Failure)
        ensures
            f@ == (FailureView { kind, message: message@, cause: cause@ }),
    {
        Failure { kind, message: message.to_owned(), cause: cause.to_owned() }
    }
}

/// Returns the level at which a failure of the given kind is shown.
pub fn severity(kind: FailureKind) -> (level: PatchErrorLevel)
    ensures
        level == level_of(kind),
        level == PatchErrorLevel::Low <==> kind == FailureKind::Maintenance,
{
    match kind {
        FailureKind::Maintenance => PatchErrorLevel::Low,
        _ => PatchErrorLevel::High,
    }
}

/// Classifies a failure: the level follows from its kind alone.
pub fn classify(failure: Failure, friendly_message: &str) -> (e: PatchError)
    ensures
        e@ == (PatchErrorView {
            internal_error: failure@,
            friendly_message: friendly_message@,
            level: level_of(failure.kind),
        }),
{
    let level = severity(failure.kind);
    failure.to_patch_error_level(friendly_message, level)
}

} // verus!
