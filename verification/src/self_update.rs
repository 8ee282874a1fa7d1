//! How the launcher replaces its own executable, which cannot be written
//! while it runs. The replacement is written beside it under a reserved
//! extension; the next process, started from the replacement, copies itself
//! over the name of the launcher.

use vstd::prelude::*;
use vstd::string::*;
use crate::error::{Failure, FailureKind, FailureView};
use crate::text::same_text;

verus! {

/// The reserved extension of a replacement that waits to be moved into place.
pub const UPDATE_FILE_EXTENSION: &'static str = "aecoupdate";

/// What stands between a file name and its extension.
pub const EXTENSION_SEPARATOR: &'static str = ".";

/// The name under which the replacement of the file called `name` is
/// written: the name, a dot and the reserved extension.
pub open spec fn update_name_text(name: Seq<char>) -> Seq<char> {
    name + EXTENSION_SEPARATOR@ + UPDATE_FILE_EXTENSION@
}

/// Returns the name under which the replacement of the file called `name`
/// is written, beside that file.
pub fn update_file_name(name: &str) -> (update: String)
    ensures
        update@ == update_name_text(name@),
{
    let mut update = name.to_owned();
    update.append(EXTENSION_SEPARATOR);
    update.append(UPDATE_FILE_EXTENSION);
    update
}

/// How often a copy or a removal is tried before it is given up.
pub const MAX_ATTEMPTS: u8 = 5;

/// How long to wait between two tries, in milliseconds. The delay is fixed:
/// what stands in the way is a process that is about to end.
pub const RETRY_DELAY_MILLIS: u64 = 250;

/// The reserved extension with the dot in front of it.
pub open spec fn update_suffix() -> Seq<char> {
    EXTENSION_SEPARATOR@ + UPDATE_FILE_EXTENSION@
}

/// True if a file of this name is a replacement that waits to be moved into
/// place: the name ends in a dot and the reserved extension, and something
/// stands in front of the dot.
pub open spec fn has_update_extension(name: Seq<char>) -> bool {
    &&& name.len() > update_suffix().len()
    &&& name.subrange(name.len() - update_suffix().len(), name.len() as int) == update_suffix()
}

/// The name without the dot and the reserved extension.
pub open spec fn restored_name_text(name: Seq<char>) -> Seq<char> {
    name.subrange(0, name.len() - update_suffix().len())
}

/// The name that a replacement is moved to, if `name` is that of a replacement.
pub open spec fn restored_name(name: Seq<char>) -> Option<Seq<char>> {
    if has_update_extension(name) {
        Some(restored_name_text(name))
    } else {
        None
    }
}

/// Returns the name that the replacement called `name` is moved to: `name`
/// without the reserved extension. Returns nothing if `name` does not carry
/// the reserved extension.
pub fn restored_file_name(name: &str) -> (restored: Option<String>)
    ensures
        match restored {
            Some(o) => restored_name(name@) == Some(o@),
            None => restored_name(name@) is None,
        },
{
    let suffix = update_file_name("");
    proof {
        reveal_strlit("");
        assert(suffix@ =~= update_suffix());
    }
    let length = name.unicode_len();
    let suffix_length = suffix.as_str().unicode_len();
    if length > suffix_length {
        let tail = name.substring_char(length - suffix_length, length);
        if same_text(tail, suffix.as_str()) {
            let head = name.substring_char(0, length - suffix_length);
            return Some(head.to_owned());
        }
    }
    None
}

/// Tells whether a file of this name is a replacement that waits to be moved
/// into place.
pub fn carries_update_extension(name: &str) -> (carries: bool)
    ensures
        carries == has_update_extension(name@),
{
    restored_file_name(name).is_some()
}

/// The name of a replacement leads back to the name of what it replaces:
/// the two phases of the protocol agree on the names.
pub proof fn lemma_update_name_round_trip(name: Seq<char>)
    requires
        name.len() > 0,
    ensures
        has_update_extension(update_name_text(name)),
        restored_name(update_name_text(name)) == Some(name),
{
    let update = update_name_text(name);
    assert(update =~= name + update_suffix());
    assert(update.subrange(update.len() - update_suffix().len(), update.len() as int)
        =~= update_suffix());
    assert(update.subrange(0, update.len() - update_suffix().len()) =~= name);
}

/// Where the check at startup stands.
#[derive(Debug, Clone, Copy, PartialEq, Eq, Structural)]
pub enum StartupPhase {
    /// The copy over the launcher's name is being tried for the given time.
    Copying(u8),
    /// The pause after the given failed try of the copy.
    CopyPause(u8),
    /// The restored file is being made executable.
    Marking,
    /// It is being asked whether a stray replacement lies beside the executable.
    LookingForStray,
    /// The removal of the stray replacement is being tried for the given time.
    Removing(u8),
    /// The pause after the given failed try of the removal.
    RemovePause(u8),
    /// The check is over.
    Over,
}

/// What the caller is asked to do at startup.
#[derive(Debug, PartialEq, Eq)]
pub enum StartupAction {
    /// Copy the running executable over the file of this name beside it.
    CopySelf { to: String },
    /// Wait for this many milliseconds.
    Wait { millis: u64 },
    /// Make the file of this name beside the running executable executable.
    MarkExecutable { name: String },
    /// Say whether a file of this name lies beside the running executable,
    /// with `StartupEvent::Found`.
    LookForStray { name: String },
    /// Remove the file of this name beside the running executable.
    RemoveStray { name: String },
    /// Nothing is left to do here. If a stray replacement could not be
    /// removed, the failure is handed over to be logged, and no more.
    Continue { complaint: Option<Failure> },
    /// Start the file of this name beside the running executable as a
    /// detached process, and end this process.
    Relaunch { name: String },
    /// The check failed; the user is to be told.
    Abort { failure: Failure, friendly_message: String },
}

/// What the contracts say of a `StartupAction`: its texts are sequences of
/// characters.
pub enum StartupActionView {
    CopySelf { to: Seq<char> },
    Wait { millis: u64 },
    MarkExecutable { name: Seq<char> },
    LookForStray { name: Seq<char> },
    RemoveStray { name: Seq<char> },
    Continue { complaint: Option<FailureView> },
    Relaunch { name: Seq<char> },
    Abort { failure: FailureView, friendly_message: Seq<char> },
}

impl View for StartupAction {
    type V = StartupActionView;

    open spec fn view(&self) -> StartupActionView {
        match self {
            StartupAction::CopySelf { to } => StartupActionView::CopySelf { to: to@ },
            StartupAction::Wait { millis } => StartupActionView::Wait { millis: *millis },
            StartupAction::MarkExecutable { name } => StartupActionView::MarkExecutable {
                name: name@,
            },
            StartupAction::LookForStray { name } => StartupActionView::LookForStray { name: name@ },
            StartupAction::RemoveStray { name } => StartupActionView::RemoveStray { name: name@ },
            StartupAction::Continue { complaint } => StartupActionView::Continue {
                complaint: match complaint {
                    Some(f) => Some(f@),
                    None => None,
                },
            },
            StartupAction::Relaunch { name } => StartupActionView::Relaunch { name: name@ },
            StartupAction::Abort { failure, friendly_message } => StartupActionView::Abort {
                failure: failure@,
                friendly_message: friendly_message@,
            },
        }
    }
}

/// How the action that was handed out last went.
#[derive(Debug, PartialEq, Eq)]
pub enum StartupEvent {
    /// It was done.
    Done,
    /// The answer to `StartupAction::LookForStray`.
    Found(bool),
    /// It failed, with these words.
    Failed(String),
}

/// What the contracts say of a `StartupEvent`: its texts are sequences of
/// characters.
pub enum StartupEventView {
    Done,
    Found(bool),
    Failed(Seq<char>),
}

impl View for StartupEvent {
    type V = StartupEventView;

    open spec fn view(&self) -> StartupEventView {
        match self {
            StartupEvent::Done => StartupEventView::Done,
            StartupEvent::Found(found) => StartupEventView::Found(*found),
            StartupEvent::Failed(cause) => StartupEventView::Failed(cause@),
        }
    }
}

/// The state of the check at startup.
pub struct StartupView {
    pub phase: StartupPhase,
    /// The name of the file that is copied to, or removed.
    pub target: Seq<char>,
}

/// The failure of an operation on a file, with what was being done.
pub open spec fn file_failure(message: Seq<char>, cause: Seq<char>) -> FailureView {
    FailureView { kind: FailureKind::Filesystem, message, cause }
}

/// The end of a check for a launcher that cannot read its own file name.
pub open spec fn startup_unnamed() -> StartupActionView {
    StartupActionView::Abort {
        failure: file_failure("Failed to get launcher file name"@, Seq::empty()),
        friendly_message: "Failed to remove temporary launcher"@,
    }
}

/// The first action of the check. A process that runs from a replacement
/// copies itself over the launcher's name. Any other process looks for a
/// replacement that an interrupted update has left behind. A process that
/// cannot read the file name of its executable can do neither, and fails.
pub open spec fn startup_first(exe_name: Option<Seq<char>>) -> (StartupView, StartupActionView) {
    match exe_name {
        None => (
            StartupView { phase: StartupPhase::Over, target: Seq::empty() },
            startup_unnamed(),
        ),
        Some(name) => match restored_name(name) {
            Some(restored) => (
                StartupView { phase: StartupPhase::Copying(1), target: restored },
                StartupActionView::CopySelf { to: restored },
            ),
            None => (
                StartupView {
                    phase: StartupPhase::LookingForStray,
                    target: update_name_text(name),
                },
                StartupActionView::LookForStray { name: update_name_text(name) },
            ),
        },
    }
}

/// The check is over.
pub open spec fn startup_over(s: StartupView, action: StartupActionView) -> (
    StartupView,
    StartupActionView,
) {
    (StartupView { phase: StartupPhase::Over, ..s }, action)
}

/// True if the check, as it stands, can take the event.
pub open spec fn startup_allows(s: StartupView, e: StartupEventView) -> bool {
    match s.phase {
        StartupPhase::Copying(_) => e is Done || e is Failed,
        StartupPhase::CopyPause(_) => e is Done,
        StartupPhase::Marking => e is Done || e is Failed,
        StartupPhase::LookingForStray => e is Found || e is Failed,
        StartupPhase::Removing(_) => e is Done || e is Failed,
        StartupPhase::RemovePause(_) => e is Done,
        StartupPhase::Over => false,
    }
}

/// The end of a check that is told of something it did not ask for.
pub open spec fn startup_out_of_turn() -> StartupActionView {
    StartupActionView::Abort {
        failure: file_failure("An outcome arrived out of turn"@, Seq::empty()),
        friendly_message: "The launcher lost track of its work"@,
    }
}

/// The state after an event, and the action that is handed out. A copy that
/// fails is tried again after a pause, five times in all; then the check
/// fails. When the copy is made, the file is made executable and takes over.
/// A removal that fails is tried again in the same way; when it is given up
/// the check goes on all the same, and so it does when the stray
/// replacement cannot be looked for. An event that the check cannot take
/// ends it.
pub open spec fn startup_next(s: StartupView, e: StartupEventView) -> (
    StartupView,
    StartupActionView,
) {
    if !startup_allows(s, e) {
        startup_over(s, startup_out_of_turn())
    } else {
        match s.phase {
            StartupPhase::Copying(attempt) => match e {
                StartupEventView::Failed(cause) => if attempt >= MAX_ATTEMPTS {
                    startup_over(
                        s,
                        StartupActionView::Abort {
                            failure: file_failure("Couldn't copy the launcher"@, cause),
                            friendly_message: "Failed to overwrite patcher"@,
                        },
                    )
                } else {
                    (
                        StartupView { phase: StartupPhase::CopyPause(attempt), ..s },
                        StartupActionView::Wait { millis: RETRY_DELAY_MILLIS },
                    )
                },
                _ => (
                    StartupView { phase: StartupPhase::Marking, ..s },
                    StartupActionView::MarkExecutable { name: s.target },
                ),
            },
            StartupPhase::CopyPause(attempt) => (
                StartupView { phase: StartupPhase::Copying((attempt + 1) as u8), ..s },
                StartupActionView::CopySelf { to: s.target },
            ),
            StartupPhase::Marking => match e {
                StartupEventView::Failed(cause) => startup_over(
                    s,
                    StartupActionView::Abort {
                        failure: file_failure("Couldn't make the launcher executable"@, cause),
                        friendly_message: "Failed to make patcher executable"@,
                    },
                ),
                _ => startup_over(s, StartupActionView::Relaunch { name: s.target }),
            },
            StartupPhase::LookingForStray => match e {
                StartupEventView::Found(true) => (
                    StartupView { phase: StartupPhase::Removing(1), ..s },
                    StartupActionView::RemoveStray { name: s.target },
                ),
                StartupEventView::Failed(cause) => startup_over(
                    s,
                    StartupActionView::Continue {
                        complaint: Some(
                            file_failure("Failed to look for temporary launcher"@, cause),
                        ),
                    },
                ),
                _ => startup_over(s, StartupActionView::Continue { complaint: None }),
            },
            StartupPhase::Removing(attempt) => match e {
                StartupEventView::Failed(cause) => if attempt >= MAX_ATTEMPTS {
                    startup_over(
                        s,
                        StartupActionView::Continue {
                            complaint: Some(
                                file_failure("Failed to remove temporary launcher"@, cause),
                            ),
                        },
                    )
                } else {
                    (
                        StartupView { phase: StartupPhase::RemovePause(attempt), ..s },
                        StartupActionView::Wait { millis: RETRY_DELAY_MILLIS },
                    )
                },
                _ => startup_over(s, StartupActionView::Continue { complaint: None }),
            },
            StartupPhase::RemovePause(attempt) => (
                StartupView { phase: StartupPhase::Removing((attempt + 1) as u8), ..s },
                StartupActionView::RemoveStray { name: s.target },
            ),
            StartupPhase::Over => startup_over(s, startup_out_of_turn()),
        }
    }
}

/// What holds of the check in every state: no try has a number above the limit.
pub open spec fn startup_coherent(s: StartupView) -> bool {
    match s.phase {
        StartupPhase::Copying(attempt) => 1 <= attempt <= MAX_ATTEMPTS,
        StartupPhase::CopyPause(attempt) => 1 <= attempt < MAX_ATTEMPTS,
        StartupPhase::Removing(attempt) => 1 <= attempt <= MAX_ATTEMPTS,
        StartupPhase::RemovePause(attempt) => 1 <= attempt < MAX_ATTEMPTS,
        _ => true,
    }
}

/// The check at startup: the second phase of the replacement of the
/// launcher, which runs before anything is asked of the network.
#[derive(Debug, PartialEq, Eq)]
pub struct StartupCheck {
    phase: StartupPhase,
    target: String,
}

impl View for StartupCheck {
    type V = StartupView;

    closed spec fn view(&self) -> StartupView {
        StartupView { phase: self.phase, target: self.target@ }
    }
}

impl StartupCheck {
    /// True if the check is in a state that its own steps lead to.
    pub open spec fn wf(&self) -> bool {
        startup_coherent(self@)
    }

    /// Begins the check for the process whose executable has this file name,
    /// if it has one that can be read, and hands out the first action.
    pub fn begin(exe_name: Option<&str>) -> (started: (StartupCheck, StartupAction))
        ensures
            started.0.wf(),
            started.0@ == startup_first(
                match exe_name {
                    Some(name) => Some(name@),
                    None => None,
                },
            ).0,
            started.1@ == startup_first(
                match exe_name {
                    Some(name) => Some(name@),
                    None => None,
                },
            ).1,
    {
        let name = match exe_name {
            Some(name) => name,
            None => {
                proof {
                    reveal_strlit("");
                    assert(""@ =~= Seq::<char>::empty());
                }
                let action = StartupAction::Abort {
                    failure: Failure::new(
                        FailureKind::Filesystem,
                        "Failed to get launcher file name",
                        "",
                    ),
                    friendly_message: "Failed to remove temporary launcher".to_owned(),
                };
                return (StartupCheck { phase: StartupPhase::Over, target: String::new() }, action);
            },
        };
        match restored_file_name(name) {
            Some(restored) => {
                let action = StartupAction::CopySelf { to: restored.clone() };
                (StartupCheck { phase: StartupPhase::Copying(1), target: restored }, action)
            },
            None => {
                let stray = update_file_name(name);
                let action = StartupAction::LookForStray { name: stray.clone() };
                (StartupCheck { phase: StartupPhase::LookingForStray, target: stray }, action)
            },
        }
    }

    /// Tells whether the check is over.
    pub fn is_over(&self) -> (over: bool)
        ensures
            over == (self@.phase == StartupPhase::Over),
    {
        match self.phase {
            StartupPhase::Over => true,
            _ => false,
        }
    }

    /// Tells whether the check can take the event.
    pub fn expects(&self, event: &StartupEvent) -> (expected: bool)
        ensures
            expected == startup_allows(self@, event@),
    {
        match self.phase {
            StartupPhase::Copying(_) | StartupPhase::Marking | StartupPhase::Removing(_) => {
                match event {
                    StartupEvent::Done => true,
                    StartupEvent::Failed(_) => true,
                    _ => false,
                }
            },
            StartupPhase::CopyPause(_) | StartupPhase::RemovePause(_) => match event {
                StartupEvent::Done => true,
                _ => false,
            },
            StartupPhase::LookingForStray => match event {
                StartupEvent::Found(_) => true,
                StartupEvent::Failed(_) => true,
                _ => false,
            },
            StartupPhase::Over => false,
        }
    }

    /// Ends the check because it was told of something it did not ask for.
    fn lose_track(&mut self) -> (action: StartupAction)
        ensures
            final(self).wf(),
            final(self)@ == startup_over(old(self)@, startup_out_of_turn()).0,
            action@ == startup_out_of_turn(),
    {
        proof {
            reveal_strlit("");
            assert(""@ =~= Seq::<char>::empty());
        }
        self.phase = StartupPhase::Over;
        StartupAction::Abort {
            failure: Failure::new(FailureKind::Filesystem, "An outcome arrived out of turn", ""),
            friendly_message: "The launcher lost track of its work".to_owned(),
        }
    }

    /// Takes the outcome of the action that was handed out last, and hands
    /// out the next one. An outcome that was not asked for ends the check
    /// with a failure.
    pub fn step(&mut self, event: StartupEvent) -> (action: StartupAction)
        requires
            old(self).wf(),
        ensures
            final(self).wf(),
            final(self)@ == startup_next(old(self)@, event@).0,
            action@ == startup_next(old(self)@, event@).1,
    {
        if !self.expects(&event) {
            return self.lose_track();
        }
        match self.phase {
            StartupPhase::Copying(attempt) => match event {
                StartupEvent::Failed(cause) => {
                    if attempt >= MAX_ATTEMPTS {
                        self.phase = StartupPhase::Over;
                        StartupAction::Abort {
                            failure: Failure {
                                kind: FailureKind::Filesystem,
                                message: "Couldn't copy the launcher".to_owned(),
                                cause,
                            },
                            friendly_message: "Failed to overwrite patcher".to_owned(),
                        }
                    } else {
                        self.phase = StartupPhase::CopyPause(attempt);
                        StartupAction::Wait { millis: RETRY_DELAY_MILLIS }
                    }
                },
                _ => {
                    self.phase = StartupPhase::Marking;
                    StartupAction::MarkExecutable { name: self.target.clone() }
                },
            },
            StartupPhase::CopyPause(attempt) => {
                self.phase = StartupPhase::Copying(attempt + 1);
                StartupAction::CopySelf { to: self.target.clone() }
            },
            StartupPhase::Marking => match event {
                StartupEvent::Failed(cause) => {
                    self.phase = StartupPhase::Over;
                    StartupAction::Abort {
                        failure: Failure {
                            kind: FailureKind::Filesystem,
                            message: "Couldn't make the launcher executable".to_owned(),
                            cause,
                        },
                        friendly_message: "Failed to make patcher executable".to_owned(),
                    }
                },
                _ => {
                    self.phase = StartupPhase::Over;
                    StartupAction::Relaunch { name: self.target.clone() }
                },
            },
            StartupPhase::LookingForStray => match event {
                StartupEvent::Found(true) => {
                    self.phase = StartupPhase::Removing(1);
                    StartupAction::RemoveStray { name: self.target.clone() }
                },
                StartupEvent::Failed(cause) => {
                    self.phase = StartupPhase::Over;
                    StartupAction::Continue {
                        complaint: Some(
                            Failure {
                                kind: FailureKind::Filesystem,
                                message: "Failed to look for temporary launcher".to_owned(),
                                cause,
                            },
                        ),
                    }
                },
                _ => {
                    self.phase = StartupPhase::Over;
                    StartupAction::Continue { complaint: None }
                },
            },
            StartupPhase::Removing(attempt) => match event {
                StartupEvent::Failed(cause) => {
                    if attempt >= MAX_ATTEMPTS {
                        self.phase = StartupPhase::Over;
                        StartupAction::Continue {
                            complaint: Some(
                                Failure {
                                    kind: FailureKind::Filesystem,
                                    message: "Failed to remove temporary launcher".to_owned(),
                                    cause,
                                },
                            ),
                        }
                    } else {
                        self.phase = StartupPhase::RemovePause(attempt);
                        StartupAction::Wait { millis: RETRY_DELAY_MILLIS }
                    }
                },
                _ => {
                    self.phase = StartupPhase::Over;
                    StartupAction::Continue { complaint: None }
                },
            },
            StartupPhase::RemovePause(attempt) => {
                self.phase = StartupPhase::Removing(attempt + 1);
                StartupAction::RemoveStray { name: self.target.clone() }
            },
            StartupPhase::Over => self.lose_track(),
        }
    }
}

/// The actions that are handed out when the events arrive in this order.
pub open spec fn startup_run(s: StartupView, events: Seq<StartupEventView>) -> Seq<
    StartupActionView,
>
    decreases events.len(),
{
    if events.len() == 0 {
        Seq::empty()
    } else {
        seq![startup_next(s, events[0]).1] + startup_run(
            startup_next(s, events[0]).0,
            events.drop_first(),
        )
    }
}

/// One failed try of the copy and the pause after it: the pause lasts 250
/// milliseconds, and the copy to the same name is what comes next.
pub proof fn lemma_copy_is_retried(s: StartupView, attempt: u8, cause: Seq<char>)
    requires
        s.phase == StartupPhase::Copying(attempt),
        1 <= attempt < MAX_ATTEMPTS,
    ensures
        startup_next(s, StartupEventView::Failed(cause)).1 == (StartupActionView::Wait {
            millis: 250,
        }),
        ({
            let paused = startup_next(s, StartupEventView::Failed(cause)).0;
            &&& startup_next(paused, StartupEventView::Done).1 == (StartupActionView::CopySelf {
                to: s.target,
            })
            &&& startup_next(paused, StartupEventView::Done).0.phase == StartupPhase::Copying(
                (attempt + 1) as u8,
            )
            &&& startup_next(paused, StartupEventView::Done).0.target == s.target
        }),
{
}

/// A process that runs from a replacement whose copy over the launcher's name
/// fails five times has tried five copies, with a pause of 250 milliseconds
/// between one and the next; it then fails with an error for the user, and
/// has launched nothing.
pub proof fn lemma_five_failed_copies(exe_name: Seq<char>, causes: Seq<Seq<char>>)
    requires
        has_update_extension(exe_name),
        causes.len() == 5,
    ensures
        ({
            let restored = restored_name_text(exe_name);
            let copy = StartupActionView::CopySelf { to: restored };
            let pause = StartupActionView::Wait { millis: 250 };
            let failed = |i: int| StartupEventView::Failed(causes[i]);
            let events = seq![
                failed(0),
                StartupEventView::Done,
                failed(1),
                StartupEventView::Done,
                failed(2),
                StartupEventView::Done,
                failed(3),
                StartupEventView::Done,
                failed(4),
            ];
            let actions = startup_run(startup_first(Some(exe_name)).0, events);
            &&& startup_first(Some(exe_name)).1 == copy
            &&& actions.len() == 9
            &&& actions.subrange(0, 8) == seq![pause, copy, pause, copy, pause, copy, pause, copy]
            &&& actions[8] == (StartupActionView::Abort {
                failure: file_failure("Couldn't copy the launcher"@, causes[4]),
                friendly_message: "Failed to overwrite patcher"@,
            })
            &&& forall|i: int| 0 <= i < actions.len() ==> !(#[trigger] actions[i] is Relaunch)
        }),
{
    let restored = restored_name_text(exe_name);
    let copy = StartupActionView::CopySelf { to: restored };
    let pause = StartupActionView::Wait { millis: 250 };
    let failed = |i: int| StartupEventView::Failed(causes[i]);
    let events = seq![
        failed(0),
        StartupEventView::Done,
        failed(1),
        StartupEventView::Done,
        failed(2),
        StartupEventView::Done,
        failed(3),
        StartupEventView::Done,
        failed(4),
    ];
    let s0 = startup_first(Some(exe_name)).0;
    let e1 = events.drop_first();
    let s1 = startup_next(s0, events[0]).0;
    let e2 = e1.drop_first();
    let s2 = startup_next(s1, e1[0]).0;
    let e3 = e2.drop_first();
    let s3 = startup_next(s2, e2[0]).0;
    let e4 = e3.drop_first();
    let s4 = startup_next(s3, e3[0]).0;
    let e5 = e4.drop_first();
    let s5 = startup_next(s4, e4[0]).0;
    let e6 = e5.drop_first();
    let s6 = startup_next(s5, e5[0]).0;
    let e7 = e6.drop_first();
    let s7 = startup_next(s6, e6[0]).0;
    let e8 = e7.drop_first();
    let s8 = startup_next(s7, e7[0]).0;
    let e9 = e8.drop_first();
    let s9 = startup_next(s8, e8[0]).0;
    assert(e9.len() == 0);
    assert(startup_run(s9, e9) =~= Seq::empty());
    assert(startup_run(s8, e8) =~= seq![startup_next(s8, e8[0]).1]);
    assert(startup_run(s7, e7) =~= seq![startup_next(s7, e7[0]).1] + startup_run(s8, e8));
    assert(startup_run(s6, e6) =~= seq![startup_next(s6, e6[0]).1] + startup_run(s7, e7));
    assert(startup_run(s5, e5) =~= seq![startup_next(s5, e5[0]).1] + startup_run(s6, e6));
    assert(startup_run(s4, e4) =~= seq![startup_next(s4, e4[0]).1] + startup_run(s5, e5));
    assert(startup_run(s3, e3) =~= seq![startup_next(s3, e3[0]).1] + startup_run(s4, e4));
    assert(startup_run(s2, e2) =~= seq![startup_next(s2, e2[0]).1] + startup_run(s3, e3));
    assert(startup_run(s1, e1) =~= seq![startup_next(s1, e1[0]).1] + startup_run(s2, e2));
    assert(startup_run(s0, events) =~= seq![startup_next(s0, events[0]).1] + startup_run(s1, e1));
    let actions = startup_run(s0, events);
    assert(actions.subrange(0, 8) =~= seq![pause, copy, pause, copy, pause, copy, pause, copy]);
}

/// Nothing is launched at startup unless the copy over the launcher's name
/// was made and the file was made executable.
pub proof fn lemma_relaunch_follows_copy(s: StartupView, e: StartupEventView)
    requires
        startup_next(s, e).1 is Relaunch,
    ensures
        s.phase == StartupPhase::Marking,
        !(e is Failed),
        startup_next(s, e).1 == (StartupActionView::Relaunch { name: s.target }),
{
}

/// A stray replacement that cannot be removed does not fail the check: the
/// check goes on, and hands the failure over to be logged.
pub proof fn lemma_failed_removal_is_not_fatal(s: StartupView, e: StartupEventView)
    requires
        s.phase is Removing || s.phase is RemovePause || s.phase is LookingForStray,
        startup_allows(s, e),
    ensures
        !(startup_next(s, e).1 is Abort),
        !(startup_next(s, e).1 is Relaunch),
{
}

} // verus!
