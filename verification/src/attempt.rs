//! One attempt to bring the installation up to date, from the check at
//! startup to the walk through the manifest.
//!
//! The attempt does no input or output. It hands out one task at a time; the
//! caller carries it out and reports how it went. Whatever fails ends the
//! attempt; nothing is tried again unless the user asks for it.

use vstd::prelude::*;
use vstd::string::*;
use crate::error::{Failure, FailureKind, FailureView, PatchError, PatchErrorLevel, PatchErrorView};
use crate::json::{json_document, manifest_of, parse_manifest, parse_status, server_status_of};
use crate::manifest::{
    find_child_directory, first_directory_named, lemma_first_directory_named, Directory,
    DirectoryView,
};
use crate::message::{Fraction, PatchMessage, PatchMessageView, PatchStatus};
use crate::sync::{initial, option_text, SessionView, SyncSession};
use crate::urls::{checked_url, directory_segment_text, joined_url, ServerUrls, ServerUrlsView};

verus! {

/// The name of the subtree whose files every platform needs.
pub const COMMON_PLATFORM: &'static str = "all";

/// What the server says of itself.
#[derive(Debug, Clone, Copy, PartialEq, Eq, Structural)]
pub enum ServerStatus {
    Online,
    Maintenance,
}

/// How the check at startup ended.
#[derive(Debug, PartialEq, Eq)]
pub enum StartupOutcome {
    /// Nothing stands in the way of the attempt.
    Continue,
    /// The file of this name is to take over from this process.
    Relaunch(String),
    /// The check failed.
    Failed { failure: Failure, friendly_message: String },
}

/// What the contracts say of a `StartupOutcome`: its texts are sequences of
/// characters.
pub enum StartupOutcomeView {
    Continue,
    Relaunch(Seq<char>),
    Failed { failure: FailureView, friendly_message: Seq<char> },
}

impl View for StartupOutcome {
    type V = StartupOutcomeView;

    open spec fn view(&self) -> StartupOutcomeView {
        match self {
            StartupOutcome::Continue => StartupOutcomeView::Continue,
            StartupOutcome::Relaunch(name) => StartupOutcomeView::Relaunch(name@),
            StartupOutcome::Failed { failure, friendly_message } => StartupOutcomeView::Failed {
                failure: failure@,
                friendly_message: friendly_message@,
            },
        }
    }
}

/// How an attempt ended.
#[derive(Debug, PartialEq, Eq)]
pub enum AttemptOutcome {
    /// The installation is up to date.
    Completed,
    /// The file of this name, beside the running executable, is to be
    /// started in place of this process. `restored` tells whether it is the
    /// launcher under its own name, which a replacement has just been
    /// copied to, or a replacement that was just downloaded.
    Relaunch { name: String, restored: bool },
    /// The attempt failed.
    Failed(PatchError),
}

/// What the contracts say of a `AttemptOutcome`: its texts are sequences of
/// characters.
pub enum AttemptOutcomeView {
    Completed,
    Relaunch { name: Seq<char>, restored: bool },
    Failed(PatchErrorView),
}

impl View for AttemptOutcome {
    type V = AttemptOutcomeView;

    open spec fn view(&self) -> AttemptOutcomeView {
        match self {
            AttemptOutcome::Completed => AttemptOutcomeView::Completed,
            AttemptOutcome::Relaunch { name, restored } => AttemptOutcomeView::Relaunch {
                name: name@,
                restored: *restored,
            },
            AttemptOutcome::Failed(e) => AttemptOutcomeView::Failed(e@),
        }
    }
}

/// What the caller is asked to do next.
#[derive(Debug, PartialEq, Eq)]
pub enum AttemptAction {
    /// Send this message to the presentation layer.
    Notify(PatchMessage),
    /// Run the check at startup, and answer with `AttemptEvent::StartupDone`.
    FinishSelfUpdate,
    /// Download the server's status from this URL, and answer with
    /// `AttemptEvent::Downloaded`.
    QueryStatus { url: String },
    /// Say whether the application is installed, with `AttemptEvent::Installed`.
    CheckInstallation,
    /// Download the packaged installation from this URL into a temporary file.
    DownloadBase { url: String },
    /// Unpack the packaged installation that was downloaded.
    UnpackBase,
    /// Download the manifest from this URL, and answer with
    /// `AttemptEvent::Downloaded`.
    FetchManifest { url: String },
    /// Run this session to its end, and answer with `AttemptEvent::Synced`
    /// or `AttemptEvent::SessionFailed`.
    SyncPlatform(SyncSession),
    /// The attempt is over.
    Complete(AttemptOutcome),
}

/// What the contracts say of a `AttemptAction`: its texts are sequences of
/// characters.
pub enum AttemptActionView {
    Notify(PatchMessageView),
    FinishSelfUpdate,
    QueryStatus { url: Seq<char> },
    CheckInstallation,
    DownloadBase { url: Seq<char> },
    UnpackBase,
    FetchManifest { url: Seq<char> },
    SyncPlatform(SessionView),
    Complete(AttemptOutcomeView),
}

impl View for AttemptAction {
    type V = AttemptActionView;

    open spec fn view(&self) -> AttemptActionView {
        match self {
            AttemptAction::Notify(m) => AttemptActionView::Notify(m@),
            AttemptAction::FinishSelfUpdate => AttemptActionView::FinishSelfUpdate,
            AttemptAction::QueryStatus { url } => AttemptActionView::QueryStatus { url: url@ },
            AttemptAction::CheckInstallation => AttemptActionView::CheckInstallation,
            AttemptAction::DownloadBase { url } => AttemptActionView::DownloadBase { url: url@ },
            AttemptAction::UnpackBase => AttemptActionView::UnpackBase,
            AttemptAction::FetchManifest { url } => AttemptActionView::FetchManifest { url: url@ },
            AttemptAction::SyncPlatform(session) => AttemptActionView::SyncPlatform(session@),
            AttemptAction::Complete(outcome) => AttemptActionView::Complete(outcome@),
        }
    }
}

/// The views of some actions, in the same order.
pub open spec fn tasks_view(actions: Seq<AttemptAction>) -> Seq<AttemptActionView> {
    actions.map_values(|a: AttemptAction| a@)
}

/// How the task that was handed out last went.
#[derive(Debug, PartialEq, Eq)]
pub enum AttemptEvent {
    /// It was done.
    Done,
    /// The answer to `AttemptAction::FinishSelfUpdate`.
    StartupDone(StartupOutcome),
    /// The answer to `AttemptAction::QueryStatus` and to
    /// `AttemptAction::FetchManifest`: the bytes that were downloaded.
    Downloaded(Vec<u8>),
    /// The answer to `AttemptAction::CheckInstallation`.
    Installed(bool),
    /// The answer to `AttemptAction::SyncPlatform`: the session ended well,
    /// and this is the replacement of the launcher that it left pending.
    Synced { pending: Option<String> },
    /// The answer to `AttemptAction::SyncPlatform`: the session failed.
    SessionFailed(Failure),
    /// It failed, with these words.
    Failed(String),
}

/// What the contracts say of a `AttemptEvent`: its texts are sequences of
/// characters.
pub enum AttemptEventView {
    Done,
    StartupDone(StartupOutcomeView),
    Downloaded(Seq<u8>),
    Installed(bool),
    Synced { pending: Option<Seq<char>> },
    SessionFailed(FailureView),
    Failed(Seq<char>),
}

impl View for AttemptEvent {
    type V = AttemptEventView;

    open spec fn view(&self) -> AttemptEventView {
        match self {
            AttemptEvent::Done => AttemptEventView::Done,
            AttemptEvent::StartupDone(o) => AttemptEventView::StartupDone(o@),
            AttemptEvent::Downloaded(bytes) => AttemptEventView::Downloaded(bytes@),
            AttemptEvent::Installed(i) => AttemptEventView::Installed(*i),
            AttemptEvent::Synced { pending } => AttemptEventView::Synced {
                pending: option_text(*pending),
            },
            AttemptEvent::SessionFailed(f) => AttemptEventView::SessionFailed(f@),
            AttemptEvent::Failed(cause) => AttemptEventView::Failed(cause@),
        }
    }
}

/// What the attempt waits for.
#[derive(Debug, Clone, Copy, PartialEq, Eq, Structural)]
pub enum Stage {
    /// Nothing has been handed out yet.
    Start,
    /// The check at startup.
    SelfUpdate,
    /// The server's status.
    Status,
    /// The answer whether the application is installed.
    InstallCheck,
    /// The download of the package.
    Download,
    /// The unpacking of the package.
    Unpack,
    /// The manifest.
    Manifest,
    /// The end of the session for the common subtree (0) or for the host's (1).
    Sync(u8),
    /// The completion of what is decided already.
    Queue,
    /// Nothing: the attempt is over.
    Over,
}

/// The state of an attempt.
#[verifier::ext_equal]
pub struct AttemptView {
    pub stage: Stage,
    /// The tasks that are decided and not yet handed out.
    pub queue: Seq<AttemptActionView>,
    /// What the attempt waits for once the queue is empty.
    pub resume: Stage,
    pub urls: ServerUrlsView,
    /// The name of the host's platform.
    pub host: Seq<char>,
    /// The file name of the running executable, if it can be read.
    pub exe_name: Option<Seq<char>>,
    pub manifest: Option<DirectoryView>,
    /// The replacement of the launcher that the sessions have left pending.
    pub pending: Option<Seq<char>>,
}

/// The state in which an attempt starts.
pub open spec fn fresh(urls: ServerUrlsView, host: Seq<char>, exe_name: Option<Seq<char>>) -> AttemptView {
    AttemptView {
        stage: Stage::Start,
        queue: Seq::empty(),
        resume: Stage::Start,
        urls,
        host,
        exe_name,
        manifest: None,
        pending: None,
    }
}

/// The attempt ends.
pub open spec fn complete(s: AttemptView, outcome: AttemptOutcomeView) -> (
    AttemptView,
    AttemptActionView,
) {
    (
        AttemptView { stage: Stage::Over, queue: Seq::empty(), ..s },
        AttemptActionView::Complete(outcome),
    )
}

/// The attempt ends with a failure of level `High`.
pub open spec fn fail(s: AttemptView, failure: FailureView, friendly_message: Seq<char>) -> (
    AttemptView,
    AttemptActionView,
) {
    complete(
        s,
        AttemptOutcomeView::Failed(
            PatchErrorView { internal_error: failure, friendly_message, level: PatchErrorLevel::High },
        ),
    )
}

/// What the user is told when a server is under maintenance. It is expected,
/// and of level `Low`.
pub open spec fn maintenance_error() -> PatchErrorView {
    PatchErrorView {
        internal_error: FailureView {
            kind: FailureKind::Maintenance,
            message: "Received server status Maintenance"@,
            cause: Seq::empty(),
        },
        friendly_message: "Server is down for maintenance"@,
        level: PatchErrorLevel::Low,
    }
}

/// The failure of something that was asked of the network.
pub open spec fn network_failure(message: Seq<char>, cause: Seq<char>) -> FailureView {
    FailureView { kind: FailureKind::Network, message, cause }
}

/// The failure of something that was asked of the file system.
pub open spec fn disk_failure(message: Seq<char>, cause: Seq<char>) -> FailureView {
    FailureView { kind: FailureKind::Filesystem, message, cause }
}

/// The words for the user when the session of a platform has failed.
pub open spec fn platform_friendly(platform: Seq<char>) -> Seq<char> {
    "Failed to check files for platform '"@ + platform + "'"@
}

/// The name of the platform with the given number: the common subtree comes
/// first, the host's second.
pub open spec fn platform_name(s: AttemptView, index: nat) -> Seq<char> {
    if index == 0 {
        COMMON_PLATFORM@
    } else {
        s.host
    }
}

/// Hands out the first of the tasks that are decided.
pub open spec fn hand_out(s: AttemptView) -> (AttemptView, AttemptActionView) {
    (
        AttemptView {
            queue: s.queue.drop_first(),
            stage: if s.queue.len() == 1 {
                s.resume
            } else {
                Stage::Queue
            },
            ..s
        },
        s.queue[0],
    )
}

/// Queues some tasks, hands out the first, and waits for `resume` after the
/// last.
pub open spec fn enqueue(s: AttemptView, tasks: Seq<AttemptActionView>, resume: Stage) -> (
    AttemptView,
    AttemptActionView,
) {
    hand_out(AttemptView { queue: tasks, resume, ..s })
}

/// What follows the sessions: the presentation layer is told that the
/// installation is up to date; after that the attempt ends, and a replacement of
/// the launcher that is pending takes over.
pub open spec fn wrap_up(s: AttemptView) -> (AttemptView, AttemptActionView) {
    enqueue(
        s,
        seq![
            AttemptActionView::Notify(PatchMessageView::PatchStatus(PatchStatus::Finished)),
            AttemptActionView::Complete(
                match s.pending {
                    Some(name) => AttemptOutcomeView::Relaunch { name, restored: false },
                    None => AttemptOutcomeView::Completed,
                },
            ),
        ],
        Stage::Over,
    )
}

/// Starts the session of the platform with the given number, or of the next
/// one that the manifest has a subtree for. A platform without a subtree is
/// passed over.
pub open spec fn sync_from(s: AttemptView, index: nat) -> (AttemptView, AttemptActionView)
    decreases 2 - index,
{
    if index >= 2 || s.manifest is None {
        wrap_up(s)
    } else {
        let name = platform_name(s, index);
        match first_directory_named(s.manifest->0.children, name, 0) {
            None => sync_from(s, index + 1),
            Some(i) => {
                let directory = s.manifest->0.children[i as int]->Directory_0;
                match checked_url(joined_url(s.urls.patch_url, directory_segment_text(name))) {
                    Ok(url) => (
                        AttemptView { stage: Stage::Sync(index as u8), ..s },
                        AttemptActionView::SyncPlatform(initial(directory, url, s.exe_name)),
                    ),
                    Err(failure) => fail(s, failure, platform_friendly(name)),
                }
            },
        }
    }
}

/// The tasks that fetch the manifest.
pub open spec fn fetch_manifest(s: AttemptView) -> (AttemptView, AttemptActionView) {
    enqueue(s, seq![AttemptActionView::FetchManifest { url: s.urls.patchlist_url }], Stage::Manifest)
}

/// True if the attempt, as it stands, can take the event.
pub open spec fn admits(s: AttemptView, e: AttemptEventView) -> bool {
    match s.stage {
        Stage::Start => e is Done,
        Stage::Over => false,
        Stage::Queue => e is Done && s.queue.len() > 0,
        Stage::SelfUpdate => e is StartupDone,
        Stage::Status => e is Downloaded || e is Failed,
        Stage::InstallCheck => e is Installed || e is Failed,
        Stage::Download => e is Done || e is Failed,
        Stage::Unpack => e is Done || e is Failed,
        Stage::Manifest => e is Downloaded || e is Failed,
        Stage::Sync(index) => (e is Synced || e is SessionFailed) && index < 2,
    }
}

/// The first task: the check at startup, before anything is asked of the
/// network.
pub open spec fn first_task(s: AttemptView) -> (AttemptView, AttemptActionView) {
    (AttemptView { stage: Stage::SelfUpdate, ..s }, AttemptActionView::FinishSelfUpdate)
}

/// What follows once the server's status is known, or known not to be had.
/// A server that is online is told of, and the installation is looked at. A
/// server under maintenance ends the attempt, and so does a status that
/// cannot be read.
pub open spec fn status_known(s: AttemptView, status: Result<ServerStatus, FailureView>) -> (
    AttemptView,
    AttemptActionView,
) {
    match status {
        Ok(ServerStatus::Online) => enqueue(
            s,
            seq![
                AttemptActionView::Notify(PatchMessageView::Info("Server is online"@)),
                AttemptActionView::Notify(
                    PatchMessageView::Downloading(
                        "Checking game installation"@,
                        Fraction { done: 1, of: 1 },
                    ),
                ),
                AttemptActionView::CheckInstallation,
            ],
            Stage::InstallCheck,
        ),
        Ok(ServerStatus::Maintenance) => complete(
            s,
            AttemptOutcomeView::Failed(maintenance_error()),
        ),
        Err(failure) => fail(s, failure, "Failed to parse server status"@),
    }
}

/// What follows once the manifest is known, or known not to be had: the
/// sessions, or the end of the attempt.
pub open spec fn manifest_known(s: AttemptView, manifest: Result<DirectoryView, FailureView>) -> (
    AttemptView,
    AttemptActionView,
) {
    match manifest {
        Ok(directory) => sync_from(AttemptView { manifest: Some(directory), ..s }, 0),
        Err(failure) => fail(s, failure, "Failed to parse patch info"@),
    }
}

/// What the user is told when the attempt is told of something it did not
/// ask for.
pub open spec fn out_of_turn() -> PatchErrorView {
    PatchErrorView {
        internal_error: FailureView {
            kind: FailureKind::Filesystem,
            message: "An outcome arrived out of turn"@,
            cause: Seq::empty(),
        },
        friendly_message: "The launcher lost track of its work"@,
        level: PatchErrorLevel::High,
    }
}

/// The state after an event, and the task that is handed out. An event
/// that the attempt cannot take ends it.
pub open spec fn after(s: AttemptView, e: AttemptEventView) -> (AttemptView, AttemptActionView) {
    if !admits(s, e) {
        complete(s, AttemptOutcomeView::Failed(out_of_turn()))
    } else {
        after_admitted(s, e)
    }
}

/// The state after an event that the attempt can take, and the task that is
/// handed out.
pub open spec fn after_admitted(s: AttemptView, e: AttemptEventView) -> (
    AttemptView,
    AttemptActionView,
) {
    match s.stage {
        Stage::Start => first_task(s),
        Stage::Queue => hand_out(s),
        Stage::SelfUpdate => match e {
            AttemptEventView::StartupDone(StartupOutcomeView::Relaunch(name)) => complete(
                s,
                AttemptOutcomeView::Relaunch { name, restored: true },
            ),
            AttemptEventView::StartupDone(
                StartupOutcomeView::Failed { failure, friendly_message },
            ) => fail(s, failure, friendly_message),
            _ => enqueue(
                s,
                seq![
                    AttemptActionView::Notify(PatchMessageView::Info("Checking server status"@)),
                    AttemptActionView::QueryStatus { url: s.urls.status_url },
                ],
                Stage::Status,
            ),
        },
        Stage::Status => match e {
            AttemptEventView::Downloaded(bytes) => status_known(
                s,
                server_status_of(json_document(bytes)),
            ),
            AttemptEventView::Failed(cause) => fail(
                s,
                network_failure("Couldn't download the server status"@, cause),
                "Failed to get server status"@,
            ),
            _ => complete(s, AttemptOutcomeView::Failed(out_of_turn())),
        },
        Stage::InstallCheck => match e {
            AttemptEventView::Installed(false) => enqueue(
                s,
                seq![
                    AttemptActionView::Notify(
                        PatchMessageView::Downloading(
                            "Downloading game since it is not installed"@,
                            Fraction { done: 0, of: 1 },
                        ),
                    ),
                    AttemptActionView::DownloadBase { url: s.urls.game_zip_url },
                ],
                Stage::Download,
            ),
            AttemptEventView::Failed(cause) => fail(
                s,
                disk_failure("Couldn't look for the game"@, cause),
                "Failed to check the game installation"@,
            ),
            _ => fetch_manifest(s),
        },
        Stage::Download => match e {
            AttemptEventView::Failed(cause) => fail(
                s,
                network_failure("Couldn't download the base game"@, cause),
                "Failed while downloading base game"@,
            ),
            _ => enqueue(s, seq![AttemptActionView::UnpackBase], Stage::Unpack),
        },
        Stage::Unpack => match e {
            AttemptEventView::Failed(cause) => fail(
                s,
                disk_failure("Couldn't unpack the base game"@, cause),
                "Failed while unpacking base game"@,
            ),
            _ => fetch_manifest(s),
        },
        Stage::Manifest => match e {
            AttemptEventView::Downloaded(bytes) => manifest_known(
                s,
                manifest_of(json_document(bytes)),
            ),
            AttemptEventView::Failed(cause) => fail(
                s,
                network_failure("Couldn't download the patch info"@, cause),
                "Failed to get patch info"@,
            ),
            _ => complete(s, AttemptOutcomeView::Failed(out_of_turn())),
        },
        Stage::Sync(index) => match e {
            AttemptEventView::Synced { pending } => sync_from(
                AttemptView {
                    pending: if pending is Some {
                        pending
                    } else {
                        s.pending
                    },
                    ..s
                },
                index as nat + 1,
            ),
            AttemptEventView::SessionFailed(failure) => fail(
                s,
                failure,
                platform_friendly(platform_name(s, index as nat)),
            ),
            _ => complete(s, AttemptOutcomeView::Failed(out_of_turn())),
        },
        _ => complete(s, AttemptOutcomeView::Failed(out_of_turn())),
    }
}

/// Makes a copy of a text that may be missing.
pub fn copy_text(text: &Option<String>) -> (copy: Option<String>)
    ensures
        option_text(copy) == option_text(*text),
{
    match text {
        Some(t) => Some(t.clone()),
        None => None,
    }
}

/// Makes the words for the user when the session of a platform has failed.
pub fn platform_message(platform: &str) -> (message: String)
    ensures
        message@ == platform_friendly(platform@),
{
    let mut message = "Failed to check files for platform '".to_owned();
    message.append(platform);
    message.append("'");
    message
}

/// Makes what the user is told when a server is under maintenance.
pub fn maintenance() -> (e: PatchError)
    ensures
        e@ == maintenance_error(),
        e.level == PatchErrorLevel::Low,
{
    proof {
        reveal_strlit("");
        assert(""@ =~= Seq::<char>::empty());
    }
    PatchError {
        internal_error: Failure::new(
            FailureKind::Maintenance,
            "Received server status Maintenance",
            "",
        ),
        friendly_message: "Server is down for maintenance".to_owned(),
        level: PatchErrorLevel::Low,
    }
}

/// What the attempt waits for after the queue is neither the queue itself
/// nor a session, and no session is queued.
pub open spec fn calm(s: AttemptView) -> bool {
    &&& s.resume != Stage::Queue
    &&& !(s.resume is Sync)
    &&& no_session(s.queue)
}

/// True if none of the tasks is a session to run: a session is handed out
/// when its turn has come, and is never queued.
pub open spec fn no_session(tasks: Seq<AttemptActionView>) -> bool {
    forall|i: int| 0 <= i < tasks.len() ==> !(#[trigger] tasks[i] is SyncPlatform)
}

/// True if the task can be carried out as it is: a session that is handed
/// out is in a state that its own steps lead to.
pub open spec fn sound(action: AttemptAction) -> bool {
    action matches AttemptAction::SyncPlatform(session) ==> session.wf()
}

/// What holds of every attempt: it waits for the queue only while something
/// is queued, and for a session only of one of the two platforms, with the
/// manifest at hand.
pub open spec fn orderly(s: AttemptView) -> bool {
    &&& calm(s)
    &&& s.stage == Stage::Queue ==> s.queue.len() > 0
    &&& s.stage is Sync ==> s.stage->Sync_0 < 2 && s.manifest is Some
}

/// One attempt, as far as it has come.
#[derive(Debug, PartialEq, Eq)]
pub struct Attempt {
    stage: Stage,
    queue: Vec<AttemptAction>,
    resume: Stage,
    urls: ServerUrls,
    host: String,
    exe_name: Option<String>,
    manifest: Option<Directory>,
    pending: Option<String>,
}

impl View for Attempt {
    type V = AttemptView;

    closed spec fn view(&self) -> AttemptView {
        AttemptView {
            stage: self.stage,
            queue: tasks_view(self.queue@),
            resume: self.resume,
            urls: self.urls@,
            host: self.host@,
            exe_name: option_text(self.exe_name),
            manifest: match self.manifest {
                Some(d) => Some(d@),
                None => None,
            },
            pending: option_text(self.pending),
        }
    }
}

impl Attempt {
    /// True if the attempt is in a state that its own steps lead to.
    pub open spec fn wf(&self) -> bool {
        orderly(self@)
    }

    /// Prepares an attempt against the server with these URLs, for the
    /// host's platform, for a launcher whose executable has this file name.
    pub fn new(urls: ServerUrls, host: String, exe_name: Option<String>) -> (attempt: Attempt)
        ensures
            attempt.wf(),
            attempt@ == fresh(urls@, host@, option_text(exe_name)),
    {
        let attempt = Attempt {
            stage: Stage::Start,
            queue: Vec::new(),
            resume: Stage::Start,
            urls,
            host,
            exe_name,
            manifest: None,
            pending: None,
        };
        proof {
            assert(attempt@.queue =~= Seq::empty());
            assert(attempt@ =~= fresh(urls@, host@, option_text(exe_name)));
        }
        attempt
    }

    /// Tells whether the attempt is over.
    pub fn is_over(&self) -> (over: bool)
        ensures
            over == (self@.stage == Stage::Over),
    {
        match self.stage {
            Stage::Over => true,
            _ => false,
        }
    }

    /// Tells whether the attempt can take the event.
    pub fn expects(&self, event: &AttemptEvent) -> (expected: bool)
        ensures
            expected == admits(self@, event@),
    {
        match self.stage {
            Stage::Start => match event {
                AttemptEvent::Done => true,
                _ => false,
            },
            Stage::Over => false,
            Stage::Queue => match event {
                AttemptEvent::Done => self.queue.len() > 0,
                _ => false,
            },
            Stage::SelfUpdate => match event {
                AttemptEvent::StartupDone(_) => true,
                _ => false,
            },
            Stage::Status => match event {
                AttemptEvent::Downloaded(_) => true,
                AttemptEvent::Failed(_) => true,
                _ => false,
            },
            Stage::InstallCheck => match event {
                AttemptEvent::Installed(_) => true,
                AttemptEvent::Failed(_) => true,
                _ => false,
            },
            Stage::Download => match event {
                AttemptEvent::Done => true,
                AttemptEvent::Failed(_) => true,
                _ => false,
            },
            Stage::Unpack => match event {
                AttemptEvent::Done => true,
                AttemptEvent::Failed(_) => true,
                _ => false,
            },
            Stage::Manifest => match event {
                AttemptEvent::Downloaded(_) => true,
                AttemptEvent::Failed(_) => true,
                _ => false,
            },
            Stage::Sync(index) => match event {
                AttemptEvent::Synced { .. } => index < 2,
                AttemptEvent::SessionFailed(_) => index < 2,
                _ => false,
            },
        }
    }

    /// Ends the attempt.
    fn complete(&mut self, outcome: AttemptOutcome) -> (action: AttemptAction)
        requires
            calm(old(self)@),
        ensures
            final(self).wf(),
            sound(action),
            final(self)@ == complete(old(self)@, outcome@).0,
            action@ == complete(old(self)@, outcome@).1,
    {
        self.stage = Stage::Over;
        self.queue = Vec::new();
        proof {
            assert(self@.queue =~= Seq::empty());
            assert(self@ =~= complete(old(self)@, outcome@).0);
        }
        AttemptAction::Complete(outcome)
    }

    /// Ends the attempt with a failure of level `High`.
    fn fail(&mut self, failure: Failure, friendly_message: String) -> (action: AttemptAction)
        requires
            calm(old(self)@),
        ensures
            final(self).wf(),
            sound(action),
            final(self)@ == fail(old(self)@, failure@, friendly_message@).0,
            action@ == fail(old(self)@, failure@, friendly_message@).1,
    {
        self.complete(
            AttemptOutcome::Failed(
                PatchError { internal_error: failure, friendly_message, level: PatchErrorLevel::High },
            ),
        )
    }

    /// Ends the attempt because it was told of something it did not ask for.
    fn lose_track(&mut self) -> (action: AttemptAction)
        requires
            calm(old(self)@),
        ensures
            final(self).wf(),
            sound(action),
            final(self)@ == complete(old(self)@, AttemptOutcomeView::Failed(out_of_turn())).0,
            action@ == complete(old(self)@, AttemptOutcomeView::Failed(out_of_turn())).1,
    {
        proof {
            reveal_strlit("");
            assert(""@ =~= Seq::<char>::empty());
        }
        self.complete(
            AttemptOutcome::Failed(
                PatchError {
                    internal_error: Failure::new(
                        FailureKind::Filesystem,
                        "An outcome arrived out of turn",
                        "",
                    ),
                    friendly_message: "The launcher lost track of its work".to_owned(),
                    level: PatchErrorLevel::High,
                },
            ),
        )
    }

    /// Hands out the first of the tasks that are decided.
    fn hand_out(&mut self) -> (action: AttemptAction)
        requires
            old(self)@.queue.len() > 0,
            calm(old(self)@),
        ensures
            final(self).wf(),
            sound(action),
            final(self)@ == hand_out(old(self)@).0,
            action@ == hand_out(old(self)@).1,
    {
        let action = self.queue.remove(0);
        self.stage = if self.queue.len() == 0 {
            self.resume
        } else {
            Stage::Queue
        };
        proof {
            assert(tasks_view(self.queue@) =~= old(self)@.queue.drop_first());
            assert(self@ =~= hand_out(old(self)@).0);
        }
        action
    }

    /// Queues some tasks, hands out the first, and waits for `resume` after
    /// the last.
    fn enqueue(&mut self, tasks: Vec<AttemptAction>, resume: Stage) -> (action: AttemptAction)
        requires
            tasks.len() > 0,
            resume != Stage::Queue,
            !(resume is Sync),
            no_session(tasks_view(tasks@)),
        ensures
            final(self).wf(),
            sound(action),
            final(self)@ == enqueue(old(self)@, tasks_view(tasks@), resume).0,
            action@ == enqueue(old(self)@, tasks_view(tasks@), resume).1,
    {
        self.queue = tasks;
        self.resume = resume;
        proof {
            assert(self@ =~= (AttemptView { queue: tasks_view(tasks@), resume, ..old(self)@ }));
        }
        self.hand_out()
    }

    /// Queues the fetch of the manifest.
    fn fetch_manifest(&mut self) -> (action: AttemptAction)
        requires
            calm(old(self)@),
        ensures
            final(self).wf(),
            sound(action),
            final(self)@ == fetch_manifest(old(self)@).0,
            action@ == fetch_manifest(old(self)@).1,
    {
        let mut tasks: Vec<AttemptAction> = Vec::new();
        tasks.push(AttemptAction::FetchManifest { url: self.urls.patchlist_url.clone() });
        proof {
            assert(tasks_view(tasks@) =~= seq![
                AttemptActionView::FetchManifest { url: self@.urls.patchlist_url },
            ]);
        }
        self.enqueue(tasks, Stage::Manifest)
    }

    /// Queues what follows the sessions.
    fn wrap_up(&mut self) -> (action: AttemptAction)
        requires
            calm(old(self)@),
        ensures
            final(self).wf(),
            sound(action),
            final(self)@ == wrap_up(old(self)@).0,
            action@ == wrap_up(old(self)@).1,
    {
        let outcome = match &self.pending {
            Some(name) => AttemptOutcome::Relaunch { name: name.clone(), restored: false },
            None => AttemptOutcome::Completed,
        };
        let mut tasks: Vec<AttemptAction> = Vec::new();
        tasks.push(AttemptAction::Notify(PatchMessage::PatchStatus(PatchStatus::Finished)));
        tasks.push(AttemptAction::Complete(outcome));
        proof {
            assert(tasks_view(tasks@) =~= seq![
                AttemptActionView::Notify(PatchMessageView::PatchStatus(PatchStatus::Finished)),
                AttemptActionView::Complete(outcome@),
            ]);
        }
        self.enqueue(tasks, Stage::Over)
    }

    /// Starts the session of the platform with the given number, or of the
    /// next one that the manifest has a subtree for.
    fn sync_from(&mut self, index: u8) -> (action: AttemptAction)
        requires
            index <= 2,
            calm(old(self)@),
        ensures
            final(self).wf(),
            sound(action),
            final(self)@ == sync_from(old(self)@, index as nat).0,
            action@ == sync_from(old(self)@, index as nat).1,
    {
        let mut i: u8 = index;
        while i < 2
            invariant
                i <= 2,
                calm(self@),
                self@ == old(self)@,
                sync_from(self@, i as nat) == sync_from(old(self)@, index as nat),
            decreases 2 - i,
        {
            let ghost here = self@;
            match &self.manifest {
                None => {
                    return self.wrap_up();
                },
                Some(manifest) => {
                    let name: &str = if i == 0 {
                        COMMON_PLATFORM
                    } else {
                        self.host.as_str()
                    };
                    assert(name@ == platform_name(here, i as nat));
                    match find_child_directory(manifest, name) {
                        None => {
                            i = i + 1;
                        },
                        Some(directory) => {
                            let exe_name = copy_text(&self.exe_name);
                            match SyncSession::begin(
                                self.urls.patch_url.as_str(),
                                directory,
                                exe_name,
                            ) {
                                Ok(session) => {
                                    self.stage = Stage::Sync(i);
                                    proof {
                                        assert(self@ =~= (AttemptView {
                                            stage: Stage::Sync(i),
                                            ..here
                                        }));
                                    }
                                    return AttemptAction::SyncPlatform(session);
                                },
                                Err(failure) => {
                                    let friendly = platform_message(name);
                                    return self.fail(failure, friendly);
                                },
                            }
                        },
                    }
                },
            }
        }
        self.wrap_up()
    }

    /// Goes on once the server's status is known, or known not to be had.
    pub fn status_known(&mut self, status: Result<ServerStatus, Failure>) -> (action:
        AttemptAction)
        requires
            old(self).wf(),
        ensures
            final(self).wf(),
            sound(action),
            final(self)@ == status_known(
                old(self)@,
                match status {
                    Ok(s) => Ok(s),
                    Err(f) => Err(f@),
                },
            ).0,
            action@ == status_known(
                old(self)@,
                match status {
                    Ok(s) => Ok(s),
                    Err(f) => Err(f@),
                },
            ).1,
    {
        match status {
            Ok(ServerStatus::Online) => {
                let mut tasks: Vec<AttemptAction> = Vec::new();
                tasks.push(AttemptAction::Notify(PatchMessage::Info("Server is online".to_owned())));
                tasks.push(
                    AttemptAction::Notify(
                        PatchMessage::Downloading(
                            "Checking game installation".to_owned(),
                            Fraction::whole(),
                        ),
                    ),
                );
                tasks.push(AttemptAction::CheckInstallation);
                proof {
                    assert(tasks_view(tasks@) =~= seq![
                        AttemptActionView::Notify(PatchMessageView::Info("Server is online"@)),
                        AttemptActionView::Notify(
                            PatchMessageView::Downloading(
                                "Checking game installation"@,
                                Fraction { done: 1, of: 1 },
                            ),
                        ),
                        AttemptActionView::CheckInstallation,
                    ]);
                }
                self.enqueue(tasks, Stage::InstallCheck)
            },
            Ok(ServerStatus::Maintenance) => self.complete(AttemptOutcome::Failed(maintenance())),
            Err(failure) => self.fail(failure, "Failed to parse server status".to_owned()),
        }
    }

    /// Goes on once the manifest is known, or known not to be had.
    pub fn manifest_known(&mut self, manifest: Result<Directory, Failure>) -> (action:
        AttemptAction)
        requires
            old(self).wf(),
        ensures
            final(self).wf(),
            sound(action),
            final(self)@ == manifest_known(
                old(self)@,
                match manifest {
                    Ok(d) => Ok(d@),
                    Err(f) => Err(f@),
                },
            ).0,
            action@ == manifest_known(
                old(self)@,
                match manifest {
                    Ok(d) => Ok(d@),
                    Err(f) => Err(f@),
                },
            ).1,
    {
        match manifest {
            Ok(directory) => {
                let ghost before = self@;
                self.manifest = Some(directory);
                proof {
                    assert(self@ =~= (AttemptView { manifest: Some(directory@), ..before }));
                }
                self.sync_from(0)
            },
            Err(failure) => self.fail(failure, "Failed to parse patch info".to_owned()),
        }
    }

    /// Starts the attempt: hands out the first task. It is the same as to
    /// tell an attempt that has not started that it may go on.
    pub fn start(&mut self) -> (action: AttemptAction)
        requires
            old(self).wf(),
        ensures
            final(self).wf(),
            sound(action),
            final(self)@ == after(old(self)@, AttemptEventView::Done).0,
            action@ == after(old(self)@, AttemptEventView::Done).1,
    {
        self.step(AttemptEvent::Done)
    }

    /// Takes the outcome of the task that was handed out last, and hands out
    /// the next one. An outcome that was not asked for ends the attempt
    /// with a failure.
    pub fn step(&mut self, event: AttemptEvent) -> (action: AttemptAction)
        requires
            old(self).wf(),
        ensures
            final(self).wf(),
            sound(action),
            final(self)@ == after(old(self)@, event@).0,
            action@ == after(old(self)@, event@).1,
    {
        let ghost before = self@;
        if !self.expects(&event) {
            return self.lose_track();
        }
        match self.stage {
            Stage::Start => {
                self.stage = Stage::SelfUpdate;
                proof {
                    assert(self@ =~= first_task(before).0);
                }
                AttemptAction::FinishSelfUpdate
            },
            Stage::Queue => self.hand_out(),
            Stage::SelfUpdate => match event {
                AttemptEvent::StartupDone(StartupOutcome::Relaunch(name)) => self.complete(
                    AttemptOutcome::Relaunch { name, restored: true },
                ),
                AttemptEvent::StartupDone(StartupOutcome::Failed { failure, friendly_message }) => {
                    self.fail(failure, friendly_message)
                },
                _ => {
                    let mut tasks: Vec<AttemptAction> = Vec::new();
                    tasks.push(
                        AttemptAction::Notify(PatchMessage::Info("Checking server status".to_owned())),
                    );
                    tasks.push(AttemptAction::QueryStatus { url: self.urls.status_url.clone() });
                    proof {
                        assert(tasks_view(tasks@) =~= seq![
                            AttemptActionView::Notify(
                                PatchMessageView::Info("Checking server status"@),
                            ),
                            AttemptActionView::QueryStatus { url: before.urls.status_url },
                        ]);
                    }
                    self.enqueue(tasks, Stage::Status)
                },
            },
            Stage::Status => match event {
                AttemptEvent::Downloaded(bytes) => {
                    let status = parse_status(bytes.as_slice());
                    self.status_known(status)
                },
                AttemptEvent::Failed(cause) => self.fail(
                    Failure {
                        kind: FailureKind::Network,
                        message: "Couldn't download the server status".to_owned(),
                        cause,
                    },
                    "Failed to get server status".to_owned(),
                ),
                _ => self.lose_track(),
            },
            Stage::InstallCheck => match event {
                AttemptEvent::Installed(false) => {
                    let mut tasks: Vec<AttemptAction> = Vec::new();
                    tasks.push(
                        AttemptAction::Notify(
                            PatchMessage::Downloading(
                                "Downloading game since it is not installed".to_owned(),
                                Fraction::nothing(),
                            ),
                        ),
                    );
                    tasks.push(AttemptAction::DownloadBase { url: self.urls.game_zip_url.clone() });
                    proof {
                        assert(tasks_view(tasks@) =~= seq![
                            AttemptActionView::Notify(
                                PatchMessageView::Downloading(
                                    "Downloading game since it is not installed"@,
                                    Fraction { done: 0, of: 1 },
                                ),
                            ),
                            AttemptActionView::DownloadBase { url: before.urls.game_zip_url },
                        ]);
                    }
                    self.enqueue(tasks, Stage::Download)
                },
                AttemptEvent::Failed(cause) => self.fail(
                    Failure {
                        kind: FailureKind::Filesystem,
                        message: "Couldn't look for the game".to_owned(),
                        cause,
                    },
                    "Failed to check the game installation".to_owned(),
                ),
                _ => self.fetch_manifest(),
            },
            Stage::Download => match event {
                AttemptEvent::Failed(cause) => self.fail(
                    Failure {
                        kind: FailureKind::Network,
                        message: "Couldn't download the base game".to_owned(),
                        cause,
                    },
                    "Failed while downloading base game".to_owned(),
                ),
                _ => {
                    let mut tasks: Vec<AttemptAction> = Vec::new();
                    tasks.push(AttemptAction::UnpackBase);
                    proof {
                        assert(tasks_view(tasks@) =~= seq![AttemptActionView::UnpackBase]);
                    }
                    self.enqueue(tasks, Stage::Unpack)
                },
            },
            Stage::Unpack => match event {
                AttemptEvent::Failed(cause) => self.fail(
                    Failure {
                        kind: FailureKind::Filesystem,
                        message: "Couldn't unpack the base game".to_owned(),
                        cause,
                    },
                    "Failed while unpacking base game".to_owned(),
                ),
                _ => self.fetch_manifest(),
            },
            Stage::Manifest => match event {
                AttemptEvent::Downloaded(bytes) => {
                    let manifest = parse_manifest(bytes.as_slice());
                    self.manifest_known(manifest)
                },
                AttemptEvent::Failed(cause) => self.fail(
                    Failure {
                        kind: FailureKind::Network,
                        message: "Couldn't download the patch info".to_owned(),
                        cause,
                    },
                    "Failed to get patch info".to_owned(),
                ),
                _ => self.lose_track(),
            },
            Stage::Sync(index) => {
                let platform: String = if index == 0 {
                    COMMON_PLATFORM.to_owned()
                } else {
                    self.host.clone()
                };
                assert(platform@ == platform_name(before, index as nat));
                match event {
                    AttemptEvent::Synced { pending } => {
                        if pending.is_some() {
                            self.pending = pending;
                        }
                        proof {
                            assert(self@ =~= (AttemptView {
                                pending: if option_text(pending) is Some {
                                    option_text(pending)
                                } else {
                                    before.pending
                                },
                                ..before
                            }));
                        }
                        self.sync_from(index + 1)
                    },
                    AttemptEvent::SessionFailed(failure) => {
                        let friendly = platform_message(platform.as_str());
                        self.fail(failure, friendly)
                    },
                    _ => self.lose_track(),
                }
            },
            _ => self.lose_track(),
        }
    }
}

/// A server under maintenance ends the attempt at once, with a failure of
/// level `Low`: nothing is left to hand out, so the installation is not
/// checked and the manifest is not fetched.
pub proof fn lemma_maintenance_ends_attempt(s: AttemptView)
    ensures
        ({
            let (ended, action) = status_known(s, Ok(ServerStatus::Maintenance));
            &&& action == AttemptActionView::Complete(
                AttemptOutcomeView::Failed(maintenance_error()),
            )
            &&& maintenance_error().level == PatchErrorLevel::Low
            &&& maintenance_error().internal_error.kind == FailureKind::Maintenance
            &&& ended.stage == Stage::Over
            &&& ended.queue.len() == 0
            &&& forall|e: AttemptEventView| !admits(ended, e)
        }),
{
}

/// The check at startup comes before anything is asked of the network, and
/// the server's status is the first thing that is asked: the installation
/// is looked at, and the manifest is fetched, only after the server has
/// said that it is online.
pub proof fn lemma_status_is_asked_first(
    urls: ServerUrlsView,
    host: Seq<char>,
    exe_name: Option<Seq<char>>,
)
    ensures
        ({
            let (s1, a1) = after(fresh(urls, host, exe_name), AttemptEventView::Done);
            let (s2, a2) = after(s1, AttemptEventView::StartupDone(StartupOutcomeView::Continue));
            let (s3, a3) = after(s2, AttemptEventView::Done);
            let (s4, a4) = status_known(s3, Ok(ServerStatus::Online));
            let (s5, a5) = after(s4, AttemptEventView::Done);
            let (s6, a6) = after(s5, AttemptEventView::Done);
            &&& a1 == AttemptActionView::FinishSelfUpdate
            &&& a2 == AttemptActionView::Notify(PatchMessageView::Info("Checking server status"@))
            &&& a3 == AttemptActionView::QueryStatus { url: urls.status_url }
            &&& s3.stage == Stage::Status
            &&& a4 == AttemptActionView::Notify(PatchMessageView::Info("Server is online"@))
            &&& a5 == AttemptActionView::Notify(
                PatchMessageView::Downloading(
                    "Checking game installation"@,
                    Fraction { done: 1, of: 1 },
                ),
            )
            &&& a6 == AttemptActionView::CheckInstallation
            &&& s6.stage == Stage::InstallCheck
        }),
{
    let (s1, a1) = after(fresh(urls, host, exe_name), AttemptEventView::Done);
    let (s2, a2) = after(s1, AttemptEventView::StartupDone(StartupOutcomeView::Continue));
    assert(s2.queue =~= seq![AttemptActionView::QueryStatus { url: urls.status_url }]);
    let (s3, a3) = after(s2, AttemptEventView::Done);
    let (s4, a4) = status_known(s3, Ok(ServerStatus::Online));
    assert(s4.queue =~= seq![
        AttemptActionView::Notify(
            PatchMessageView::Downloading(
                "Checking game installation"@,
                Fraction { done: 1, of: 1 },
            ),
        ),
        AttemptActionView::CheckInstallation,
    ]);
    let (s5, a5) = after(s4, AttemptEventView::Done);
    assert(s5.queue =~= seq![AttemptActionView::CheckInstallation]);
}

/// A platform for which the manifest has no subtree is passed over without
/// a failure: the attempt goes on with the next platform.
pub proof fn lemma_missing_platform_is_skipped(s: AttemptView, index: nat)
    requires
        index < 2,
        s.manifest is Some,
        first_directory_named(s.manifest->0.children, platform_name(s, index), 0) is None,
    ensures
        sync_from(s, index) == sync_from(s, index + 1),
{
}

/// The sessions are run for the common subtree first and for the host's
/// platform second, each on its own: each starts in front of its own walk,
/// with nothing checked and with its own count of files.
pub proof fn lemma_platforms_are_independent(s: AttemptView, index: nat)
    requires
        index < 2,
        s.manifest is Some,
        sync_from(s, index).1 is SyncPlatform,
    ensures
        ({
            let session = sync_from(s, index).1->SyncPlatform_0;
            &&& session.checked == 0
            &&& session.pos == 0
            &&& session.pending is None
            &&& session.platform == platform_name(s, 0) || session.platform == platform_name(
                s,
                1,
            )
        }),
    decreases 2 - index,
{
    let name = platform_name(s, index);
    match first_directory_named(s.manifest->0.children, name, 0) {
        None => {
            if index + 1 < 2 {
                lemma_platforms_are_independent(s, index + 1);
            } else {
                assert(sync_from(s, index + 1) == wrap_up(s));
            }
        },
        Some(i) => {
            lemma_first_directory_named(s.manifest->0.children, name, 0);
        },
    }
}

} // verus!
