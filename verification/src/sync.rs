//! The walk through one platform's subtree of the manifest: which files are
//! inspected, which are fetched, and how archives are brought up to date.
//!
//! The session does no input or output. It hands out one action at a time;
//! the caller performs it and reports how it went. Whatever fails ends the
//! session: no file is skipped.

use vstd::prelude::*;
use vstd::string::*;
use crate::error::{ArchiveFault, Failure, FailureKind, FailureView};
use crate::manifest::{leaf_count_among, Directory, DirectoryView, EntryView, FileEntry};
use crate::message::Fraction;
use crate::safety::{lemma_next_is_tidy, tidy};
use crate::self_update::{update_file_name, update_name_text};
use crate::text::{decimal, decimal_text, same_text};
use crate::traversal::{
    is_leaf, leaf_visits, lemma_leaf_visits_monotonic, lemma_walk_counts_leaves_among,
    visits_view, walk, walk_of, Visit, VisitView,
};
use crate::urls::{
    archive_segment, archive_segment_text, checked_url, directory_segment,
    directory_segment_text, joined_url, resolve,
};

verus! {

/// The views of some texts, in the same order.
pub open spec fn texts_view(texts: Seq<String>) -> Seq<Seq<char>> {
    texts.map_values(|t: String| t@)
}

/// Where a file is written.
#[derive(Debug, PartialEq, Eq)]
pub enum Target {
    /// Below the installation's root: the names of the directories on the
    /// way, outermost first, and the name of the file.
    Install(Vec<String>),
    /// Beside the running executable, under this file name.
    BesideExecutable(String),
}

/// What the contracts say of a `Target`: its texts are sequences of
/// characters.
pub enum TargetView {
    Install(Seq<Seq<char>>),
    BesideExecutable(Seq<char>),
}

impl View for Target {
    type V = TargetView;

    open spec fn view(&self) -> TargetView {
        match self {
            Target::Install(path) => TargetView::Install(texts_view(path@)),
            Target::BesideExecutable(name) => TargetView::BesideExecutable(name@),
        }
    }
}

/// What the caller is asked to do next.
#[derive(Debug, PartialEq, Eq)]
pub enum Action {
    /// Look at the local file at this place below the installation's root,
    /// and answer with `Event::Local`.
    InspectFile { path: Vec<String> },
    /// Tell the presentation layer how far the walk has come.
    Report { text: String, progress: Fraction },
    /// Download this URL into the transfer buffer.
    Fetch { url: String },
    /// Write the transfer buffer to this place.
    WriteFile { target: Target },
    /// Make the file at this place executable.
    MarkExecutable { target: Target },
    /// Open the archive of this name in this directory.
    OpenArchive { directory: Vec<String>, name: String },
    /// Read this entry of the open archive, and answer with `Event::Entry`.
    ReadEntry { name: String },
    /// Write the transfer buffer into the open archive under this name.
    WriteEntry { name: String },
    /// Commit the new layout of the open archive.
    Finalize,
    /// Reclaim the space that overwritten entries have left in the archive.
    Defrag,
    /// The walk is complete.
    Finish,
    /// The walk has failed.
    Abort(Failure),
}

/// What the contracts say of a `Action`: its texts are sequences of
/// characters.
pub enum ActionView {
    InspectFile { path: Seq<Seq<char>> },
    Report { text: Seq<char>, progress: Fraction },
    Fetch { url: Seq<char> },
    WriteFile { target: TargetView },
    MarkExecutable { target: TargetView },
    OpenArchive { directory: Seq<Seq<char>>, name: Seq<char> },
    ReadEntry { name: Seq<char> },
    WriteEntry { name: Seq<char> },
    Finalize,
    Defrag,
    Finish,
    Abort(FailureView),
}

impl View for Action {
    type V = ActionView;

    open spec fn view(&self) -> ActionView {
        match self {
            Action::InspectFile { path } => ActionView::InspectFile { path: texts_view(path@) },
            Action::Report { text, progress } => ActionView::Report {
                text: text@,
                progress: *progress,
            },
            Action::Fetch { url } => ActionView::Fetch { url: url@ },
            Action::WriteFile { target } => ActionView::WriteFile { target: target@ },
            Action::MarkExecutable { target } => ActionView::MarkExecutable { target: target@ },
            Action::OpenArchive { directory, name } => ActionView::OpenArchive {
                directory: texts_view(directory@),
                name: name@,
            },
            Action::ReadEntry { name } => ActionView::ReadEntry { name: name@ },
            Action::WriteEntry { name } => ActionView::WriteEntry { name: name@ },
            Action::Finalize => ActionView::Finalize,
            Action::Defrag => ActionView::Defrag,
            Action::Finish => ActionView::Finish,
            Action::Abort(f) => ActionView::Abort(f@),
        }
    }
}

/// The views of some actions, in the same order.
pub open spec fn actions_view(actions: Seq<Action>) -> Seq<ActionView> {
    actions.map_values(|a: Action| a@)
}

/// An action without what it carries.
#[derive(Debug, Clone, Copy, PartialEq, Eq, Structural)]
pub enum ActionKind {
    InspectFile,
    Report,
    Fetch,
    WriteFile,
    MarkExecutable,
    OpenArchive,
    ReadEntry,
    WriteEntry,
    Finalize,
    Defrag,
    Finish,
    Abort,
}

/// The kind of an action.
pub open spec fn kind_of(action: ActionView) -> ActionKind {
    match action {
        ActionView::InspectFile { .. } => ActionKind::InspectFile,
        ActionView::Report { .. } => ActionKind::Report,
        ActionView::Fetch { .. } => ActionKind::Fetch,
        ActionView::WriteFile { .. } => ActionKind::WriteFile,
        ActionView::MarkExecutable { .. } => ActionKind::MarkExecutable,
        ActionView::OpenArchive { .. } => ActionKind::OpenArchive,
        ActionView::ReadEntry { .. } => ActionKind::ReadEntry,
        ActionView::WriteEntry { .. } => ActionKind::WriteEntry,
        ActionView::Finalize => ActionKind::Finalize,
        ActionView::Defrag => ActionKind::Defrag,
        ActionView::Finish => ActionKind::Finish,
        ActionView::Abort(_) => ActionKind::Abort,
    }
}

impl Action {
    /// Returns the kind of the action.
    pub fn kind(&self) -> (kind: ActionKind)
        ensures
            kind == kind_of(self@),
    {
        match self {
            Action::InspectFile { .. } => ActionKind::InspectFile,
            Action::Report { .. } => ActionKind::Report,
            Action::Fetch { .. } => ActionKind::Fetch,
            Action::WriteFile { .. } => ActionKind::WriteFile,
            Action::MarkExecutable { .. } => ActionKind::MarkExecutable,
            Action::OpenArchive { .. } => ActionKind::OpenArchive,
            Action::ReadEntry { .. } => ActionKind::ReadEntry,
            Action::WriteEntry { .. } => ActionKind::WriteEntry,
            Action::Finalize => ActionKind::Finalize,
            Action::Defrag => ActionKind::Defrag,
            Action::Finish => ActionKind::Finish,
            Action::Abort(_) => ActionKind::Abort,
        }
    }
}

/// What the caller found at the place of a tracked file.
#[derive(Debug, PartialEq, Eq)]
pub enum LocalFile {
    /// There is no such file.
    Absent,
    /// There is one: the digest of its content, and whether it is the
    /// executable that is running.
    Present { digest: String, is_running_executable: bool },
}

/// What the contracts say of a `LocalFile`: its texts are sequences of
/// characters.
pub enum LocalFileView {
    Absent,
    Present { digest: Seq<char>, is_running_executable: bool },
}

impl View for LocalFile {
    type V = LocalFileView;

    open spec fn view(&self) -> LocalFileView {
        match self {
            LocalFile::Absent => LocalFileView::Absent,
            LocalFile::Present { digest, is_running_executable } => LocalFileView::Present {
                digest: digest@,
                is_running_executable: *is_running_executable,
            },
        }
    }
}

/// What the archive store answered when it was asked for an entry.
#[derive(Debug, PartialEq, Eq)]
pub enum EntryRead {
    /// The entry is there: the digest of its content.
    Found { digest: String },
    /// The archive holds no such entry.
    NotPresent,
    /// The store failed, with these words.
    Other(String),
}

/// What the contracts say of a `EntryRead`: its texts are sequences of
/// characters.
pub enum EntryReadView {
    Found { digest: Seq<char> },
    NotPresent,
    Other(Seq<char>),
}

impl View for EntryRead {
    type V = EntryReadView;

    open spec fn view(&self) -> EntryReadView {
        match self {
            EntryRead::Found { digest } => EntryReadView::Found { digest: digest@ },
            EntryRead::NotPresent => EntryReadView::NotPresent,
            EntryRead::Other(cause) => EntryReadView::Other(cause@),
        }
    }
}

/// The fault of the store that an answer stands for, if it stands for one.
/// An entry that is not there is a fault of the store, though the session
/// takes it as an entry that is out of date and not as a failure.
pub open spec fn fault_of(read: EntryReadView) -> Option<ArchiveFault> {
    match read {
        EntryReadView::Found { .. } => None,
        EntryReadView::NotPresent => Some(ArchiveFault::NotPresent),
        EntryReadView::Other(_) => Some(ArchiveFault::Other),
    }
}

impl EntryRead {
    /// Returns the fault of the store that the answer stands for, if any.
    pub fn fault(&self) -> (fault: Option<ArchiveFault>)
        ensures
            fault == fault_of(self@),
    {
        match self {
            EntryRead::Found { .. } => None,
            EntryRead::NotPresent => Some(ArchiveFault::NotPresent),
            EntryRead::Other(_) => Some(ArchiveFault::Other),
        }
    }
}

/// How the action that was handed out last went.
#[derive(Debug, PartialEq, Eq)]
pub enum Event {
    /// It was done.
    Done,
    /// The answer to `Action::InspectFile`.
    Local(LocalFile),
    /// The answer to `Action::ReadEntry`.
    Entry(EntryRead),
    /// It failed, with these words.
    Failed(String),
}

/// What the contracts say of a `Event`: its texts are sequences of
/// characters.
pub enum EventView {
    Done,
    Local(LocalFileView),
    Entry(EntryReadView),
    Failed(Seq<char>),
}

impl View for Event {
    type V = EventView;

    open spec fn view(&self) -> EventView {
        match self {
            Event::Done => EventView::Done,
            Event::Local(l) => EventView::Local(l@),
            Event::Entry(r) => EventView::Entry(r@),
            Event::Failed(cause) => EventView::Failed(cause@),
        }
    }
}

/// What the session waits for.
#[derive(Debug, PartialEq, Eq)]
pub enum Awaiting {
    /// Nothing has been handed out yet.
    Start,
    /// The answer to an inspection; the file's URL is kept for the fetch.
    Inspection { url: String },
    /// The answer to the reading of an entry.
    Entry,
    /// The completion of an action of this kind.
    Ack(ActionKind),
    /// The completion of the closing report.
    Summary,
    /// Nothing: the session is over.
    Over,
}

/// What the contracts say of a `Awaiting`: its texts are sequences of
/// characters.
pub enum AwaitingView {
    Start,
    Inspection { url: Seq<char> },
    Entry,
    Ack(ActionKind),
    Summary,
    Over,
}

impl View for Awaiting {
    type V = AwaitingView;

    open spec fn view(&self) -> AwaitingView {
        match self {
            Awaiting::Start => AwaitingView::Start,
            Awaiting::Inspection { url } => AwaitingView::Inspection { url: url@ },
            Awaiting::Entry => AwaitingView::Entry,
            Awaiting::Ack(kind) => AwaitingView::Ack(*kind),
            Awaiting::Summary => AwaitingView::Summary,
            Awaiting::Over => AwaitingView::Over,
        }
    }
}

/// The state of a session.
#[verifier::ext_equal]
pub struct SessionView {
    /// The platform whose subtree is walked.
    pub platform: Seq<char>,
    /// The walk.
    pub visits: Seq<VisitView>,
    /// How many visits lie behind.
    pub pos: nat,
    /// The URL of the platform's subtree, and above it those of the
    /// directories and of the archive that are open, innermost last.
    pub urls: Seq<Seq<char>>,
    /// The names of the directories that are open, outermost first.
    pub dirs: Seq<Seq<char>>,
    /// The actions that are decided and not yet handed out.
    pub queue: Seq<ActionView>,
    /// What the session waits for.
    pub awaiting: AwaitingView,
    /// How many files have been checked.
    pub checked: nat,
    /// How many files there are to check.
    pub total: nat,
    /// The name of the archive that was opened last.
    pub archive: Seq<char>,
    /// Whether an entry of that archive was found out of date.
    pub changed: bool,
    /// The file name of the replacement of the running executable, once the
    /// replacement is fetched, written and made executable.
    pub pending: Option<Seq<char>>,
    /// The file name of the running executable, if it can be read.
    pub exe_name: Option<Seq<char>>,
}

/// The text of the report on the file with the given number.
pub open spec fn progress_text(number: nat, total: nat, platform: Seq<char>) -> Seq<char> {
    "Checking file "@ + decimal_text(number) + " / "@ + decimal_text(total) + " for platform '"@
        + platform + "'"@
}

/// The text of the closing report.
pub open spec fn summary_text(total: nat) -> Seq<char> {
    decimal_text(total) + " files checked."@
}

/// The report on the next file: it is number `checked + 1` of `total`.
pub open spec fn report_of(s: SessionView) -> ActionView {
    ActionView::Report {
        text: progress_text(s.checked + 1, s.total, s.platform),
        progress: Fraction { done: (s.checked + 1) as u64, of: s.total as u64 },
    }
}

/// The closing report.
pub open spec fn summary_of(s: SessionView) -> ActionView {
    ActionView::Report { text: summary_text(s.total), progress: Fraction { done: 1, of: 1 } }
}

/// True if the local file is what the manifest asks for. The digest alone
/// decides.
pub open spec fn up_to_date(entry: EntryView, local: LocalFileView) -> bool {
    local matches LocalFileView::Present { digest, .. } && digest == entry.digest
}

/// True if the local file is the running executable.
pub open spec fn is_self(local: LocalFileView) -> bool {
    local matches LocalFileView::Present { is_running_executable, .. } && is_running_executable
}

/// The failure of a session that meets the running executable and cannot
/// read its file name.
pub open spec fn unnamed_self_failure() -> FailureView {
    FailureView {
        kind: FailureKind::Filesystem,
        message: "Failed to get launcher file name"@,
        cause: Seq::empty(),
    }
}

/// What is done about a tracked file, once it is known what is there: the
/// report, and for a file that is absent or differs, one fetch and one
/// write. The running executable is never written in place: its replacement
/// goes beside it, and is made executable.
pub open spec fn file_plan(
    entry: EntryView,
    path: Seq<Seq<char>>,
    url: Seq<char>,
    local: LocalFileView,
    exe_name: Option<Seq<char>>,
    report: ActionView,
) -> Result<Seq<ActionView>, FailureView> {
    if is_self(local) && exe_name is None {
        Err(unnamed_self_failure())
    } else if up_to_date(entry, local) {
        Ok(seq![report])
    } else if is_self(local) {
        let target = TargetView::BesideExecutable(update_name_text(exe_name->0));
        Ok(
            seq![
                report,
                ActionView::Fetch { url },
                ActionView::WriteFile { target },
                ActionView::MarkExecutable { target },
            ],
        )
    } else {
        Ok(
            seq![
                report,
                ActionView::Fetch { url },
                ActionView::WriteFile { target: TargetView::Install(path) },
            ],
        )
    }
}

/// The state once it is known that the action that was handed out last is
/// done. Only one action leaves a trace: when the replacement of the
/// running executable has been made executable, which is the last thing
/// that is done about it, the replacement is recorded as pending. Until
/// then, and whenever anything about it fails, the record stays as it was.
pub open spec fn acknowledged(s: SessionView) -> SessionView {
    if s.awaiting == AwaitingView::Ack(ActionKind::MarkExecutable) && s.exe_name is Some {
        SessionView { pending: Some(update_name_text(s.exe_name->0)), ..s }
    } else {
        s
    }
}

/// The failure of an archive operation.
pub open spec fn archive_failure(words: Seq<char>, archive: Seq<char>, cause: Seq<char>) -> FailureView {
    FailureView { kind: FailureKind::Archive(ArchiveFault::Other), message: words + archive, cause }
}

/// Whether an entry of an archive is what the manifest asks for. An entry
/// that is not there does not match; a store that fails otherwise fails the
/// archive.
pub open spec fn entry_matches(entry: EntryView, read: EntryReadView, archive: Seq<char>) -> Result<
    bool,
    FailureView,
> {
    match read {
        EntryReadView::Found { digest } => Ok(digest == entry.digest),
        EntryReadView::NotPresent => Ok(false),
        EntryReadView::Other(cause) => Err(archive_failure("Failed while reading "@, archive, cause)),
    }
}

/// What is done about an entry that is out of date: the report, one fetch,
/// and one write into the archive.
pub open spec fn entry_plan(entry: EntryView, url: Seq<char>, report: ActionView) -> Seq<
    ActionView,
> {
    seq![report, ActionView::Fetch { url }, ActionView::WriteEntry { name: entry.name }]
}

/// The failure that the caller's report of a failure stands for. It depends
/// on what was being done.
pub open spec fn failure_of(awaiting: AwaitingView, archive: Seq<char>, cause: Seq<char>) -> FailureView {
    match awaiting {
        AwaitingView::Entry => archive_failure("Failed while reading "@, archive, cause),
        AwaitingView::Ack(ActionKind::Fetch) => FailureView {
            kind: FailureKind::Network,
            message: "Couldn't download the file"@,
            cause,
        },
        AwaitingView::Ack(ActionKind::WriteFile) => FailureView {
            kind: FailureKind::Filesystem,
            message: "Couldn't write the file"@,
            cause,
        },
        AwaitingView::Ack(ActionKind::MarkExecutable) => FailureView {
            kind: FailureKind::Filesystem,
            message: "Couldn't make the file executable"@,
            cause,
        },
        AwaitingView::Ack(ActionKind::OpenArchive) => archive_failure(
            "Couldn't open archive "@,
            archive,
            cause,
        ),
        AwaitingView::Ack(ActionKind::WriteEntry) => archive_failure(
            "Couldn't write to archive "@,
            archive,
            cause,
        ),
        AwaitingView::Ack(ActionKind::Finalize) => archive_failure(
            "Couldn't finalize archive "@,
            archive,
            cause,
        ),
        AwaitingView::Ack(ActionKind::Defrag) => archive_failure(
            "Couldn't defrag archive "@,
            archive,
            cause,
        ),
        _ => FailureView {
            kind: FailureKind::Filesystem,
            message: "Couldn't read the local file"@,
            cause,
        },
    }
}

/// The session ends with a failure.
pub open spec fn abort(s: SessionView, failure: FailureView) -> (SessionView, ActionView) {
    (
        SessionView { awaiting: AwaitingView::Over, queue: Seq::empty(), ..s },
        ActionView::Abort(failure),
    )
}

/// All but the last of `stack`, as long as something is left below it.
pub open spec fn popped(stack: Seq<Seq<char>>, least: nat) -> Seq<Seq<char>> {
    if stack.len() > least {
        stack.drop_last()
    } else {
        stack
    }
}

/// Hands out the next action. What is decided already comes first. Then the
/// walk goes on: directories are entered and left without an action of the
/// caller; a file is inspected; an archive is opened, its entries are read,
/// and when it is closed it is finalized and then defragmented if, and only
/// if, an entry has changed. After the last visit comes the closing report,
/// and then the end.
pub open spec fn dispatch(s: SessionView) -> (SessionView, ActionView)
    decreases s.visits.len() - s.pos,
{
    if s.queue.len() > 0 {
        (
            SessionView {
                queue: s.queue.drop_first(),
                awaiting: AwaitingView::Ack(kind_of(s.queue[0])),
                ..s
            },
            s.queue[0],
        )
    } else if s.pos >= s.visits.len() {
        if s.awaiting is Summary {
            (SessionView { awaiting: AwaitingView::Over, ..s }, ActionView::Finish)
        } else {
            (SessionView { awaiting: AwaitingView::Summary, ..s }, summary_of(s))
        }
    } else {
        match s.visits[s.pos as int] {
            VisitView::EnterDirectory(name) => match checked_url(
                joined_url(s.urls.last(), directory_segment_text(name)),
            ) {
                Ok(url) => dispatch(
                    SessionView {
                        pos: s.pos + 1,
                        urls: s.urls.push(url),
                        dirs: s.dirs.push(name),
                        ..s
                    },
                ),
                Err(failure) => abort(s, failure),
            },
            VisitView::LeaveDirectory => dispatch(
                SessionView {
                    pos: s.pos + 1,
                    urls: popped(s.urls, 1),
                    dirs: popped(s.dirs, 0),
                    ..s
                },
            ),
            VisitView::File(f) => match checked_url(joined_url(s.urls.last(), f.name)) {
                Ok(url) => (
                    SessionView { awaiting: AwaitingView::Inspection { url }, ..s },
                    ActionView::InspectFile { path: s.dirs.push(f.name) },
                ),
                Err(failure) => abort(s, failure),
            },
            VisitView::OpenArchive(name) => match checked_url(
                joined_url(s.urls.last(), archive_segment_text(name)),
            ) {
                Ok(url) => (
                    SessionView {
                        pos: s.pos + 1,
                        urls: s.urls.push(url),
                        archive: name,
                        changed: false,
                        awaiting: AwaitingView::Ack(ActionKind::OpenArchive),
                        ..s
                    },
                    ActionView::OpenArchive { directory: s.dirs, name },
                ),
                Err(failure) => abort(s, failure),
            },
            VisitView::Entry(e) => (
                SessionView { awaiting: AwaitingView::Entry, ..s },
                ActionView::ReadEntry { name: e.name },
            ),
            VisitView::CloseArchive => if s.changed {
                (
                    SessionView {
                        pos: s.pos + 1,
                        urls: popped(s.urls, 1),
                        queue: seq![ActionView::Defrag],
                        changed: false,
                        awaiting: AwaitingView::Ack(ActionKind::Finalize),
                        ..s
                    },
                    ActionView::Finalize,
                )
            } else {
                dispatch(SessionView { pos: s.pos + 1, urls: popped(s.urls, 1), ..s })
            },
        }
    }
}

/// True if the session, as it stands, can take the event.
pub open spec fn accepts(s: SessionView, e: EventView) -> bool {
    match s.awaiting {
        AwaitingView::Start => e is Done,
        AwaitingView::Over => false,
        AwaitingView::Inspection { .. } => e is Local || e is Failed,
        AwaitingView::Entry => e is Entry || e is Failed,
        AwaitingView::Ack(kind) => e is Done || (e is Failed && kind != ActionKind::Report),
        AwaitingView::Summary => e is Done,
    }
}

/// The failure of a session that is told of something it did not ask for.
pub open spec fn out_of_turn() -> FailureView {
    FailureView {
        kind: FailureKind::Filesystem,
        message: "An outcome arrived out of turn"@,
        cause: Seq::empty(),
    }
}

/// The state after an event, and the action that is handed out. An event
/// that the session cannot take ends it.
pub open spec fn next(s: SessionView, e: EventView) -> (SessionView, ActionView) {
    if !accepts(s, e) {
        abort(s, out_of_turn())
    } else {
        after_accepted(s, e)
    }
}

/// The state after an event that the session can take, and the action that
/// is handed out.
pub open spec fn after_accepted(s: SessionView, e: EventView) -> (SessionView, ActionView) {
    match e {
        EventView::Failed(cause) => abort(s, failure_of(s.awaiting, s.archive, cause)),
        EventView::Done => dispatch(acknowledged(s)),
        EventView::Local(local) => {
            let entry = s.visits[s.pos as int]->File_0;
            let url = s.awaiting->Inspection_url;
            match file_plan(entry, s.dirs.push(entry.name), url, local, s.exe_name, report_of(s)) {
                Ok(plan) => dispatch(
                    SessionView {
                        queue: plan,
                        pos: s.pos + 1,
                        checked: s.checked + 1,
                        ..s
                    },
                ),
                Err(failure) => abort(s, failure),
            }
        },
        EventView::Entry(read) => {
            let entry = s.visits[s.pos as int]->Entry_0;
            match entry_matches(entry, read, s.archive) {
                Err(failure) => abort(s, failure),
                Ok(true) => dispatch(
                    SessionView {
                        queue: seq![report_of(s)],
                        pos: s.pos + 1,
                        checked: s.checked + 1,
                        ..s
                    },
                ),
                Ok(false) => match checked_url(joined_url(s.urls.last(), entry.name)) {
                    Ok(url) => dispatch(
                        SessionView {
                            queue: entry_plan(entry, url, report_of(s)),
                            pos: s.pos + 1,
                            checked: s.checked + 1,
                            changed: true,
                            ..s
                        },
                    ),
                    Err(failure) => abort(s, failure),
                },
            }
        },
    }
}

/// The view of a text that may be missing.
pub open spec fn option_text(text: Option<String>) -> Option<Seq<char>> {
    match text {
        Some(t) => Some(t@),
        None => None,
    }
}

/// The state in which a session starts: in front of the first visit, with
/// nothing checked, and with the URL of the platform's subtree as the only
/// one that is open.
pub open spec fn initial(
    directory: DirectoryView,
    platform_url: Seq<char>,
    exe_name: Option<Seq<char>>,
) -> SessionView {
    SessionView {
        platform: directory.name,
        visits: walk_of(directory),
        pos: 0,
        urls: seq![platform_url],
        dirs: Seq::empty(),
        queue: Seq::empty(),
        awaiting: AwaitingView::Start,
        checked: 0,
        total: leaf_count_among(directory.children, directory.children.len()),
        archive: Seq::empty(),
        changed: false,
        pending: None,
        exe_name,
    }
}

/// Makes a copy of some texts.
pub fn copy_texts(texts: &Vec<String>) -> (copy: Vec<String>)
    ensures
        texts_view(copy@) == texts_view(texts@),
{
    let mut copy: Vec<String> = Vec::new();
    let mut i: usize = 0;
    while i < texts.len()
        invariant
            i <= texts.len(),
            texts_view(copy@) == texts_view(texts@).take(i as int),
        decreases texts.len() - i,
    {
        let ghost before = texts_view(copy@);
        copy.push(texts[i].clone());
        proof {
            assert(texts_view(texts@)[i as int] == texts[i as int]@);
            assert(texts_view(copy@) =~= before.push(texts[i as int]@));
            assert(texts_view(copy@) =~= texts_view(texts@).take(i + 1));
        }
        i = i + 1;
    }
    proof {
        assert(texts_view(texts@).take(texts.len() as int) =~= texts_view(texts@));
    }
    copy
}

/// Makes the report on the file with the given number.
pub fn progress_report(number: usize, total: usize, platform: &str) -> (report: Action)
    ensures
        report@ == (ActionView::Report {
            text: progress_text(number as nat, total as nat, platform@),
            progress: Fraction { done: number as u64, of: total as u64 },
        }),
{
    let mut text = "Checking file ".to_owned();
    let number_text = decimal(number as u64);
    text.append(number_text.as_str());
    text.append(" / ");
    let total_text = decimal(total as u64);
    text.append(total_text.as_str());
    text.append(" for platform '");
    text.append(platform);
    text.append("'");
    Action::Report { text, progress: Fraction { done: number as u64, of: total as u64 } }
}

/// Makes the closing report.
pub fn summary_report(total: usize) -> (report: Action)
    ensures
        report@ == (ActionView::Report {
            text: summary_text(total as nat),
            progress: Fraction { done: 1, of: 1 },
        }),
{
    let mut text = decimal(total as u64);
    text.append(" files checked.");
    Action::Report { text, progress: Fraction::whole() }
}

/// Decides what is done about a tracked file, once the caller has looked at
/// what is there.
pub fn plan_file(
    entry: &FileEntry,
    path: Vec<String>,
    url: String,
    local: &LocalFile,
    exe_name: &Option<String>,
    report: Action,
) -> (plan: Result<Vec<Action>, Failure>)
    ensures
        match plan {
            Ok(p) => file_plan(
                entry@,
                texts_view(path@),
                url@,
                local@,
                option_text(*exe_name),
                report@,
            ) == Ok::<Seq<ActionView>, FailureView>(actions_view(p@)),
            Err(f) => file_plan(
                entry@,
                texts_view(path@),
                url@,
                local@,
                option_text(*exe_name),
                report@,
            ) == Err::<Seq<ActionView>, FailureView>(f@),
        },
{
    let mut plan: Vec<Action> = Vec::new();
    proof {
        reveal_strlit("");
        assert(""@ =~= Seq::<char>::empty());
    }
    match local {
        LocalFile::Absent => {
            plan.push(report);
            plan.push(Action::Fetch { url });
            plan.push(Action::WriteFile { target: Target::Install(path) });
        },
        LocalFile::Present { digest, is_running_executable } => {
            if *is_running_executable {
                match exe_name {
                    None => {
                        return Err(
                            Failure::new(
                                FailureKind::Filesystem,
                                "Failed to get launcher file name",
                                "",
                            ),
                        );
                    },
                    Some(name) => {
                        plan.push(report);
                        if !same_text(digest.as_str(), entry.digest.as_str()) {
                            plan.push(Action::Fetch { url });
                            plan.push(
                                Action::WriteFile {
                                    target: Target::BesideExecutable(update_file_name(name.as_str())),
                                },
                            );
                            plan.push(
                                Action::MarkExecutable {
                                    target: Target::BesideExecutable(update_file_name(name.as_str())),
                                },
                            );
                        }
                    },
                }
            } else {
                plan.push(report);
                if !same_text(digest.as_str(), entry.digest.as_str()) {
                    plan.push(Action::Fetch { url });
                    plan.push(Action::WriteFile { target: Target::Install(path) });
                }
            }
        },
    }
    proof {
        let expected = file_plan(
            entry@,
            texts_view(path@),
            url@,
            local@,
            option_text(*exe_name),
            report@,
        );
        assert(expected is Ok);
        assert(actions_view(plan@) =~= expected->Ok_0);
    }
    Ok(plan)
}

/// Decides whether an entry of an archive is what the manifest asks for.
pub fn file_matches_in_archive(entry: &FileEntry, read: EntryRead, archive: &str) -> (same:
    Result<bool, Failure>)
    ensures
        match same {
            Ok(m) => entry_matches(entry@, read@, archive@) == Ok::<bool, FailureView>(m),
            Err(f) => entry_matches(entry@, read@, archive@) == Err::<bool, FailureView>(f@),
        },
{
    match read {
        EntryRead::Found { digest } => Ok(same_text(digest.as_str(), entry.digest.as_str())),
        EntryRead::NotPresent => Ok(false),
        EntryRead::Other(cause) => Err(archive_failure_of("Failed while reading ", archive, cause)),
    }
}

/// Makes the failure of an archive operation.
pub fn archive_failure_of(words: &str, archive: &str, cause: String) -> (failure: Failure)
    ensures
        failure@ == archive_failure(words@, archive@, cause@),
{
    let mut message = words.to_owned();
    message.append(archive);
    Failure { kind: FailureKind::Archive(ArchiveFault::Other), message, cause }
}

/// Decides what is done about an entry that is out of date.
pub fn plan_entry(entry: &FileEntry, url: String, report: Action) -> (plan: Vec<Action>)
    ensures
        actions_view(plan@) == entry_plan(entry@, url@, report@),
{
    let mut plan: Vec<Action> = Vec::new();
    plan.push(report);
    plan.push(Action::Fetch { url });
    plan.push(Action::WriteEntry { name: entry.name.clone() });
    proof {
        assert(actions_view(plan@) =~= entry_plan(entry@, url@, report@));
    }
    plan
}

/// The walk through one platform's subtree, as far as it has come.
#[derive(Debug, PartialEq, Eq)]
pub struct SyncSession {
    platform: String,
    visits: Vec<Visit>,
    pos: usize,
    urls: Vec<String>,
    dirs: Vec<String>,
    queue: Vec<Action>,
    awaiting: Awaiting,
    checked: usize,
    total: usize,
    archive: String,
    changed: bool,
    pending: Option<String>,
    exe_name: Option<String>,
}

impl View for SyncSession {
    type V = SessionView;

    closed spec fn view(&self) -> SessionView {
        SessionView {
            platform: self.platform@,
            visits: visits_view(self.visits@),
            pos: self.pos as nat,
            urls: texts_view(self.urls@),
            dirs: texts_view(self.dirs@),
            queue: actions_view(self.queue@),
            awaiting: self.awaiting@,
            checked: self.checked as nat,
            total: self.total as nat,
            archive: self.archive@,
            changed: self.changed,
            pending: option_text(self.pending),
            exe_name: option_text(self.exe_name),
        }
    }
}

/// What holds of a session between two visits.
pub open spec fn steady(s: SessionView) -> bool {
    &&& s.pos <= s.visits.len()
    &&& s.urls.len() >= 1
    &&& s.total == leaf_visits(s.visits, s.visits.len())
    &&& s.checked == leaf_visits(s.visits, s.pos)
    &&& s.total <= usize::MAX
}

/// What holds of every session: it stands inside its walk, below at least
/// one open URL; it has checked as many files as lie behind it; and it waits
/// for an answer only in front of the visit that asked for one.
pub open spec fn coherent(s: SessionView) -> bool {
    &&& steady(s)
    &&& (s.awaiting is Inspection ==> s.pos < s.visits.len() && s.visits[s.pos as int] is File)
    &&& (s.awaiting is Entry ==> s.pos < s.visits.len() && s.visits[s.pos as int] is Entry)
}

impl SyncSession {
    /// True if the session is in a state that its own steps lead to: it is
    /// in order, and so is what it has queued.
    pub open spec fn wf(&self) -> bool {
        coherent(self@) && tidy(self@)
    }

    /// Prepares the walk through `directory`, the subtree of one platform,
    /// whose files are found below `platform_url`.
    pub fn new(directory: &Directory, platform_url: String, exe_name: Option<String>) -> (session:
        SyncSession)
        ensures
            session.wf(),
            session@ == initial(directory@, platform_url@, option_text(exe_name)),
    {
        let visits = walk(directory);
        let ghost views = visits_view(visits@);
        let mut total: usize = 0;
        let mut i: usize = 0;
        while i < visits.len()
            invariant
                i <= visits.len(),
                views == visits_view(visits@),
                total == leaf_visits(views, i as nat),
                total <= i,
            decreases visits.len() - i,
        {
            let leaf = match &visits[i] {
                Visit::File(_) => true,
                Visit::Entry(_) => true,
                _ => false,
            };
            assert(views[i as int] == visits[i as int]@);
            assert(leaf == is_leaf(views[i as int]));
            if leaf {
                total = total + 1;
            }
            i = i + 1;
        }
        let mut urls: Vec<String> = Vec::new();
        urls.push(platform_url);
        let session = SyncSession {
            platform: directory.name.clone(),
            visits,
            pos: 0,
            urls,
            dirs: Vec::new(),
            queue: Vec::new(),
            awaiting: Awaiting::Start,
            checked: 0,
            total,
            archive: String::new(),
            changed: false,
            pending: None,
            exe_name,
        };
        proof {
            lemma_walk_counts_leaves_among(directory@.children, directory@.children.len());
            assert(session@.urls =~= seq![platform_url@]);
            assert(session@.dirs =~= Seq::empty());
            assert(session@.queue =~= Seq::empty());
            assert(session@ =~= initial(directory@, platform_url@, option_text(exe_name)));
        }
        session
    }

    /// Prepares the walk through `directory`, whose files are found below
    /// the directory of its name under `patch_url`.
    pub fn begin(patch_url: &str, directory: &Directory, exe_name: Option<String>) -> (session:
        Result<SyncSession, Failure>)
        ensures
            match session {
                Ok(s) => {
                    &&& s.wf()
                    &&& checked_url(
                        joined_url(patch_url@, directory_segment_text(directory@.name)),
                    ) matches Ok(url)
                    &&& s@ == initial(directory@, url, option_text(exe_name))
                },
                Err(f) => checked_url(
                    joined_url(patch_url@, directory_segment_text(directory@.name)),
                ) == Err::<Seq<char>, FailureView>(f@),
            },
    {
        let segment = directory_segment(directory.name.as_str());
        match resolve(patch_url, segment.as_str()) {
            Ok(url) => Ok(SyncSession::new(directory, url, exe_name)),
            Err(failure) => Err(failure),
        }
    }

    /// Returns the number of files that have been checked.
    pub fn checked(&self) -> (n: usize)
        ensures
            n == self@.checked,
    {
        self.checked
    }

    /// Returns the number of files that there are to check.
    pub fn total(&self) -> (n: usize)
        ensures
            n == self@.total,
    {
        self.total
    }

    /// Tells whether the session is over.
    pub fn is_over(&self) -> (over: bool)
        ensures
            over == (self@.awaiting is Over),
    {
        match self.awaiting {
            Awaiting::Over => true,
            _ => false,
        }
    }

    /// Returns the file name of the replacement of the running executable,
    /// if the walk has fetched one, written it and made it executable.
    pub fn pending_self_update(&self) -> (pending: Option<String>)
        ensures
            option_text(pending) == self@.pending,
    {
        match &self.pending {
            Some(name) => Some(name.clone()),
            None => None,
        }
    }

    /// Tells whether the session can take the event.
    pub fn expects(&self, event: &Event) -> (expected: bool)
        ensures
            expected == accepts(self@, event@),
    {
        match &self.awaiting {
            Awaiting::Start => match event {
                Event::Done => true,
                _ => false,
            },
            Awaiting::Over => false,
            Awaiting::Inspection { .. } => match event {
                Event::Local(_) => true,
                Event::Failed(_) => true,
                _ => false,
            },
            Awaiting::Entry => match event {
                Event::Entry(_) => true,
                Event::Failed(_) => true,
                _ => false,
            },
            Awaiting::Ack(kind) => match event {
                Event::Done => true,
                Event::Failed(_) => match kind {
                    ActionKind::Report => false,
                    _ => true,
                },
                _ => false,
            },
            Awaiting::Summary => match event {
                Event::Done => true,
                _ => false,
            },
        }
    }

    /// Ends the session with a failure.
    fn abort(&mut self, failure: Failure) -> (action: Action)
        requires
            steady(old(self)@),
        ensures
            coherent(final(self)@),
            final(self)@ == abort(old(self)@, failure@).0,
            action@ == abort(old(self)@, failure@).1,
    {
        self.awaiting = Awaiting::Over;
        self.queue = Vec::new();
        proof {
            assert(self@.queue =~= Seq::empty());
            assert(self@ =~= abort(old(self)@, failure@).0);
        }
        Action::Abort(failure)
    }

    /// Makes the failure that the caller's report of a failure stands for.
    fn failure_for(&self, cause: String) -> (failure: Failure)
        ensures
            failure@ == failure_of(self@.awaiting, self@.archive, cause@),
    {
        let archive = self.archive.as_str();
        match &self.awaiting {
            Awaiting::Entry => archive_failure_of("Failed while reading ", archive, cause),
            Awaiting::Ack(ActionKind::Fetch) => Failure {
                kind: FailureKind::Network,
                message: "Couldn't download the file".to_owned(),
                cause,
            },
            Awaiting::Ack(ActionKind::WriteFile) => Failure {
                kind: FailureKind::Filesystem,
                message: "Couldn't write the file".to_owned(),
                cause,
            },
            Awaiting::Ack(ActionKind::MarkExecutable) => Failure {
                kind: FailureKind::Filesystem,
                message: "Couldn't make the file executable".to_owned(),
                cause,
            },
            Awaiting::Ack(ActionKind::OpenArchive) => archive_failure_of(
                "Couldn't open archive ",
                archive,
                cause,
            ),
            Awaiting::Ack(ActionKind::WriteEntry) => archive_failure_of(
                "Couldn't write to archive ",
                archive,
                cause,
            ),
            Awaiting::Ack(ActionKind::Finalize) => archive_failure_of(
                "Couldn't finalize archive ",
                archive,
                cause,
            ),
            Awaiting::Ack(ActionKind::Defrag) => archive_failure_of(
                "Couldn't defrag archive ",
                archive,
                cause,
            ),
            _ => Failure {
                kind: FailureKind::Filesystem,
                message: "Couldn't read the local file".to_owned(),
                cause,
            },
        }
    }

    /// Drops the innermost open URL, unless it is the only one.
    fn close_url(&mut self)
        requires
            steady(old(self)@),
        ensures
            steady(final(self)@),
            final(self)@ == (SessionView { urls: popped(old(self)@.urls, 1), ..old(self)@ }),
    {
        if self.urls.len() > 1 {
            self.urls.pop();
        }
        proof {
            assert(self@.urls =~= popped(old(self)@.urls, 1));
            assert(self@ =~= (SessionView { urls: popped(old(self)@.urls, 1), ..old(self)@ }));
        }
    }

    /// Hands out the next action.
    fn dispatch(&mut self) -> (action: Action)
        requires
            steady(old(self)@),
        ensures
            coherent(final(self)@),
            final(self)@ == dispatch(old(self)@).0,
            action@ == dispatch(old(self)@).1,
    {
        if self.queue.len() > 0 {
            let action = self.queue.remove(0);
            self.awaiting = Awaiting::Ack(action.kind());
            proof {
                assert(actions_view(self.queue@) =~= old(self)@.queue.drop_first());
                assert(action@ == old(self)@.queue[0]);
                assert(self@ =~= dispatch(old(self)@).0);
            }
            return action;
        }
        loop
            invariant
                steady(self@),
                self.queue.len() == 0,
                dispatch(self@) == dispatch(old(self)@),
            decreases self.visits.len() - self.pos,
        {
            let ghost here = self@;
            assert(here.queue.len() == 0);
            if self.pos >= self.visits.len() {
                if let Awaiting::Summary = self.awaiting {
                    self.awaiting = Awaiting::Over;
                    assert(self@ =~= dispatch(here).0);
                    return Action::Finish;
                } else {
                    let report = summary_report(self.total);
                    self.awaiting = Awaiting::Summary;
                    assert(self@ =~= dispatch(here).0);
                    return report;
                }
            }
            let top = self.urls.len() - 1;
            assert(here.visits[here.pos as int] == self.visits[self.pos as int]@);
            assert(here.urls.last() == self.urls[top as int]@);
            proof {
                lemma_leaf_visits_monotonic(
                    here.visits,
                    (self.pos + 1) as nat,
                    self.visits.len() as nat,
                );
            }
            match &self.visits[self.pos] {
                Visit::EnterDirectory(name) => {
                    let segment = directory_segment(name.as_str());
                    match resolve(self.urls[top].as_str(), segment.as_str()) {
                        Ok(url) => {
                            let name = name.clone();
                            self.urls.push(url);
                            self.dirs.push(name);
                            self.pos = self.pos + 1;
                            proof {
                                assert(self@.urls =~= here.urls.push(url@));
                                assert(self@.dirs =~= here.dirs.push(name@));
                                assert(self@ =~= (SessionView {
                                    pos: here.pos + 1,
                                    urls: here.urls.push(url@),
                                    dirs: here.dirs.push(name@),
                                    ..here
                                }));
                            }
                        },
                        Err(failure) => {
                            return self.abort(failure);
                        },
                    }
                },
                Visit::LeaveDirectory => {
                    if self.dirs.len() > 0 {
                        self.dirs.pop();
                    }
                    self.pos = self.pos + 1;
                    proof {
                        assert(self@.dirs =~= popped(here.dirs, 0));
                    }
                    self.close_url();
                    proof {
                        assert(self@ =~= (SessionView {
                            pos: here.pos + 1,
                            urls: popped(here.urls, 1),
                            dirs: popped(here.dirs, 0),
                            ..here
                        }));
                    }
                },
                Visit::File(f) => {
                    match resolve(self.urls[top].as_str(), f.name.as_str()) {
                        Ok(url) => {
                            let mut path = copy_texts(&self.dirs);
                            path.push(f.name.clone());
                            self.awaiting = Awaiting::Inspection { url };
                            proof {
                                assert(texts_view(path@) =~= here.dirs.push(f.name@));
                                assert(self@ =~= dispatch(here).0);
                            }
                            return Action::InspectFile { path };
                        },
                        Err(failure) => {
                            return self.abort(failure);
                        },
                    }
                },
                Visit::OpenArchive(name) => {
                    let segment = archive_segment(name.as_str());
                    match resolve(self.urls[top].as_str(), segment.as_str()) {
                        Ok(url) => {
                            let directory = copy_texts(&self.dirs);
                            let name = name.clone();
                            self.archive = name.clone();
                            self.urls.push(url);
                            self.changed = false;
                            self.awaiting = Awaiting::Ack(ActionKind::OpenArchive);
                            self.pos = self.pos + 1;
                            proof {
                                assert(self@.urls =~= here.urls.push(url@));
                                assert(self@ =~= dispatch(here).0);
                            }
                            return Action::OpenArchive { directory, name };
                        },
                        Err(failure) => {
                            return self.abort(failure);
                        },
                    }
                },
                Visit::Entry(e) => {
                    let name = e.name.clone();
                    self.awaiting = Awaiting::Entry;
                    assert(self@ =~= dispatch(here).0);
                    return Action::ReadEntry { name };
                },
                Visit::CloseArchive => {
                    self.pos = self.pos + 1;
                    self.close_url();
                    if self.changed {
                        self.changed = false;
                        self.queue.push(Action::Defrag);
                        self.awaiting = Awaiting::Ack(ActionKind::Finalize);
                        proof {
                            assert(self@.queue =~= seq![ActionView::Defrag]);
                            assert(self@ =~= dispatch(here).0);
                        }
                        return Action::Finalize;
                    }
                    proof {
                        assert(self@ =~= (SessionView {
                            pos: here.pos + 1,
                            urls: popped(here.urls, 1),
                            ..here
                        }));
                    }
                },
            }
        }
    }

    /// Starts the walk: hands out the first action. It is the same as to
    /// tell a session that has not started that it may go on.
    pub fn start(&mut self) -> (action: Action)
        requires
            old(self).wf(),
        ensures
            final(self).wf(),
            final(self)@ == next(old(self)@, EventView::Done).0,
            action@ == next(old(self)@, EventView::Done).1,
    {
        self.step(Event::Done)
    }

    /// Takes the outcome of the action that was handed out last, and hands
    /// out the next one. An outcome that was not asked for ends the
    /// session with a failure.
    pub fn step(&mut self, event: Event) -> (action: Action)
        requires
            old(self).wf(),
        ensures
            final(self).wf(),
            final(self)@ == next(old(self)@, event@).0,
            action@ == next(old(self)@, event@).1,
    {
        let action = self.advance(event);
        proof {
            lemma_next_is_tidy(old(self)@, event@);
        }
        action
    }

    /// Takes an event and hands out the next action.
    fn advance(&mut self, event: Event) -> (action: Action)
        requires
            coherent(old(self)@),
        ensures
            coherent(final(self)@),
            final(self)@ == next(old(self)@, event@).0,
            action@ == next(old(self)@, event@).1,
    {
        let ghost before = self@;
        if !self.expects(&event) {
            proof {
                reveal_strlit("");
                assert(""@ =~= Seq::<char>::empty());
            }
            return self.abort(
                Failure::new(FailureKind::Filesystem, "An outcome arrived out of turn", ""),
            );
        }
        match event {
            Event::Failed(cause) => {
                let failure = self.failure_for(cause);
                self.abort(failure)
            },
            Event::Done => {
                let made_executable = match self.awaiting {
                    Awaiting::Ack(ActionKind::MarkExecutable) => true,
                    _ => false,
                };
                if made_executable {
                    let replacement = match &self.exe_name {
                        Some(name) => Some(update_file_name(name.as_str())),
                        None => None,
                    };
                    if replacement.is_some() {
                        self.pending = replacement;
                    }
                }
                proof {
                    assert(self@ =~= acknowledged(before));
                }
                self.dispatch()
            },
            Event::Local(local) => {
                assert(before.visits[before.pos as int] == self.visits[self.pos as int]@);
                proof {
                    lemma_leaf_visits_monotonic(
                        before.visits,
                        (self.pos + 1) as nat,
                        self.visits.len() as nat,
                    );
                }
                let entry = match &self.visits[self.pos] {
                    Visit::File(f) => f.duplicate(),
                    _ => FileEntry { name: String::new(), digest: String::new() },
                };
                let url = match &self.awaiting {
                    Awaiting::Inspection { url } => url.clone(),
                    _ => String::new(),
                };
                let mut path = copy_texts(&self.dirs);
                path.push(entry.name.clone());
                assert(texts_view(path@) =~= before.dirs.push(entry@.name));
                let report = progress_report(self.checked + 1, self.total, self.platform.as_str());
                match plan_file(&entry, path, url, &local, &self.exe_name, report) {
                    Ok(plan) => {
                        self.queue = plan;
                        self.pos = self.pos + 1;
                        self.checked = self.checked + 1;
                        proof {
                            assert(self@ =~= (SessionView {
                                queue: actions_view(plan@),
                                pos: before.pos + 1,
                                checked: before.checked + 1,
                                ..before
                            }));
                        }
                        self.dispatch()
                    },
                    Err(failure) => self.abort(failure),
                }
            },
            Event::Entry(read) => {
                assert(before.visits[before.pos as int] == self.visits[self.pos as int]@);
                proof {
                    lemma_leaf_visits_monotonic(
                        before.visits,
                        (self.pos + 1) as nat,
                        self.visits.len() as nat,
                    );
                }
                let entry = match &self.visits[self.pos] {
                    Visit::Entry(e) => e.duplicate(),
                    _ => FileEntry { name: String::new(), digest: String::new() },
                };
                let top = self.urls.len() - 1;
                assert(before.urls.last() == self.urls[top as int]@);
                match file_matches_in_archive(&entry, read, self.archive.as_str()) {
                    Err(failure) => self.abort(failure),
                    Ok(true) => {
                        let report = progress_report(
                            self.checked + 1,
                            self.total,
                            self.platform.as_str(),
                        );
                        self.queue = Vec::new();
                        self.queue.push(report);
                        self.pos = self.pos + 1;
                        self.checked = self.checked + 1;
                        proof {
                            assert(self@.queue =~= seq![report_of(before)]);
                            assert(self@ =~= (SessionView {
                                queue: seq![report_of(before)],
                                pos: before.pos + 1,
                                checked: before.checked + 1,
                                ..before
                            }));
                        }
                        self.dispatch()
                    },
                    Ok(false) => match resolve(self.urls[top].as_str(), entry.name.as_str()) {
                        Ok(url) => {
                            let report = progress_report(
                                self.checked + 1,
                                self.total,
                                self.platform.as_str(),
                            );
                            self.queue = plan_entry(&entry, url, report);
                            self.pos = self.pos + 1;
                            self.checked = self.checked + 1;
                            self.changed = true;
                            proof {
                                assert(self@ =~= (SessionView {
                                    queue: entry_plan(entry@, url@, report_of(before)),
                                    pos: before.pos + 1,
                                    checked: before.checked + 1,
                                    changed: true,
                                    ..before
                                }));
                            }
                            self.dispatch()
                        },
                        Err(failure) => self.abort(failure),
                    },
                }
            },
        }
    }
}

/// Number of actions of the given kind among the first `upto` of `actions`.
pub open spec fn count_of(actions: Seq<ActionView>, kind: ActionKind, upto: nat) -> nat
    decreases upto,
{
    if upto == 0 || upto > actions.len() {
        0
    } else {
        count_of(actions, kind, (upto - 1) as nat) + if kind_of(actions[upto - 1]) == kind {
            1nat
        } else {
            0nat
        }
    }
}

/// Number of fetches in a plan.
pub open spec fn fetches(plan: Seq<ActionView>) -> nat {
    count_of(plan, ActionKind::Fetch, plan.len())
}

/// Number of writes of a file in a plan.
pub open spec fn file_writes(plan: Seq<ActionView>) -> nat {
    count_of(plan, ActionKind::WriteFile, plan.len())
}

/// Number of writes into an archive in a plan.
pub open spec fn entry_writes(plan: Seq<ActionView>) -> nat {
    count_of(plan, ActionKind::WriteEntry, plan.len())
}

/// A local file whose digest is the one in the manifest is not fetched and
/// not written. A file that is absent, or whose digest differs, is fetched
/// exactly once and written exactly once. Either way there is one report,
/// and it comes first.
pub proof fn lemma_file_plan_transfers(
    entry: EntryView,
    path: Seq<Seq<char>>,
    url: Seq<char>,
    local: LocalFileView,
    exe_name: Option<Seq<char>>,
    report: ActionView,
)
    requires
        report is Report,
        file_plan(entry, path, url, local, exe_name, report) is Ok,
    ensures
        ({
            let plan = file_plan(entry, path, url, local, exe_name, report)->Ok_0;
            &&& plan.len() >= 1 && plan[0] == report
            &&& count_of(plan, ActionKind::Report, plan.len()) == 1
            &&& up_to_date(entry, local) ==> fetches(plan) == 0 && file_writes(plan) == 0
            &&& !up_to_date(entry, local) ==> fetches(plan) == 1 && file_writes(plan) == 1
        }),
{
    let plan = file_plan(entry, path, url, local, exe_name, report)->Ok_0;
    reveal_with_fuel(count_of, 5);
    if up_to_date(entry, local) {
        assert(plan.len() == 1);
    } else if is_self(local) {
        assert(plan.len() == 4);
    } else {
        assert(plan.len() == 3);
    }
}

/// The running executable is never written in place: where the local file
/// is the running executable, whatever is written goes beside it, under the
/// name with the reserved extension; and where something is written, the
/// last thing that is done is to make it executable.
pub proof fn lemma_file_plan_spares_self(
    entry: EntryView,
    path: Seq<Seq<char>>,
    url: Seq<char>,
    local: LocalFileView,
    exe_name: Option<Seq<char>>,
    report: ActionView,
)
    requires
        report is Report,
        is_self(local),
        file_plan(entry, path, url, local, exe_name, report) is Ok,
    ensures
        ({
            let plan = file_plan(entry, path, url, local, exe_name, report)->Ok_0;
            &&& exe_name is Some
            &&& forall|i: int|
                0 <= i < plan.len() && #[trigger] plan[i] is WriteFile ==> plan[i]
                    == (ActionView::WriteFile {
                    target: TargetView::BesideExecutable(update_name_text(exe_name->0)),
                })
            &&& !up_to_date(entry, local) ==> plan.last() == (ActionView::MarkExecutable {
                target: TargetView::BesideExecutable(update_name_text(exe_name->0)),
            })
            &&& up_to_date(entry, local) ==> forall|i: int|
                0 <= i < plan.len() ==> !(#[trigger] plan[i] is MarkExecutable)
        }),
{
    let plan = file_plan(entry, path, url, local, exe_name, report)->Ok_0;
    let beside = ActionView::WriteFile {
        target: TargetView::BesideExecutable(update_name_text(exe_name->0)),
    };
    if up_to_date(entry, local) {
        assert(plan =~= seq![report]);
    } else {
        assert(plan.len() == 4);
        assert(plan[2] == beside);
    }
    assert forall|i: int| 0 <= i < plan.len() && #[trigger] plan[i] is WriteFile implies plan[i]
        == beside by {
        if !up_to_date(entry, local) {
            assert(i == 0 || i == 1 || i == 2 || i == 3);
        }
    }
}

/// An entry that is out of date is fetched exactly once and written into
/// the archive exactly once, after the report.
pub proof fn lemma_entry_plan_transfers(entry: EntryView, url: Seq<char>, report: ActionView)
    requires
        report is Report,
    ensures
        fetches(entry_plan(entry, url, report)) == 1,
        entry_writes(entry_plan(entry, url, report)) == 1,
        entry_plan(entry, url, report)[0] == report,
{
    reveal_with_fuel(count_of, 4);
    assert(entry_plan(entry, url, report).len() == 3);
}

/// The answer to an inspection decides at once. A file that is up to date
/// gets its report and nothing else: nothing is left to hand out, and the
/// walk stands behind the file. A file that is not gets its report, and the
/// fetch and the write are what is handed out next.
pub proof fn lemma_inspection_decides(s: SessionView, local: LocalFileView)
    requires
        coherent(s),
        s.awaiting is Inspection,
        !(is_self(local) && s.exe_name is None),
    ensures
        ({
            let entry = s.visits[s.pos as int]->File_0;
            let plan = file_plan(
                entry,
                s.dirs.push(entry.name),
                s.awaiting->Inspection_url,
                local,
                s.exe_name,
                report_of(s),
            )->Ok_0;
            let (after, action) = next(s, EventView::Local(local));
            &&& action == report_of(s)
            &&& after.queue == plan.drop_first()
            &&& up_to_date(entry, local) ==> after.queue.len() == 0
            &&& after.pos == s.pos + 1
            &&& after.checked == s.checked + 1
            &&& after.checked <= after.total
            &&& after.pending == s.pending
            &&& coherent(after)
        }),
{
    let entry = s.visits[s.pos as int]->File_0;
    lemma_leaf_visits_monotonic(s.visits, s.pos + 1, s.visits.len());
}

/// The answer to the reading of an entry decides at once, and the archive
/// remembers it: afterwards the archive counts as changed if it did before,
/// or if this entry is absent or differs.
pub proof fn lemma_entry_read_decides(s: SessionView, read: EntryReadView)
    requires
        coherent(s),
        s.awaiting is Entry,
        !(read is Other),
    ensures
        ({
            let entry = s.visits[s.pos as int]->Entry_0;
            let same = entry_matches(entry, read, s.archive)->Ok_0;
            let (after, action) = next(s, EventView::Entry(read));
            &&& same ==> action == report_of(s) && after.queue.len() == 0 && after.changed
                == s.changed
            &&& !same && !(action is Abort) ==> action == report_of(s) && after.changed
                && after.queue == seq![
                ActionView::Fetch { url: joined_url(s.urls.last(), entry.name)->Ok_0 },
                ActionView::WriteEntry { name: entry.name },
            ]
        }),
{
    let entry = s.visits[s.pos as int]->Entry_0;
    let same = entry_matches(entry, read, s.archive)->Ok_0;
    let (after, action) = next(s, EventView::Entry(read));
    if !same && !(action is Abort) {
        let url = joined_url(s.urls.last(), entry.name)->Ok_0;
        assert(entry_plan(entry, url, report_of(s)).drop_first() =~= seq![
            ActionView::Fetch { url },
            ActionView::WriteEntry { name: entry.name },
        ]);
    } else if same {
        assert(seq![report_of(s)].drop_first() =~= Seq::<ActionView>::empty());
    }
}

/// When an archive is closed after an entry has changed, it is finalized,
/// and the defragmentation is what is handed out next, and nothing after it:
/// finalize comes before defrag, and each comes once.
pub proof fn lemma_changed_archive_is_finalized(s: SessionView)
    requires
        s.queue.len() == 0,
        s.pos < s.visits.len(),
        s.visits[s.pos as int] is CloseArchive,
        s.changed,
    ensures
        dispatch(s).1 == ActionView::Finalize,
        dispatch(s).0.queue == seq![ActionView::Defrag],
        !dispatch(s).0.changed,
        dispatch(s).0.pos == s.pos + 1,
        dispatch(dispatch(s).0).1 == ActionView::Defrag,
        dispatch(dispatch(s).0).0.queue.len() == 0,
{
    let after = dispatch(s).0;
    assert(after.queue.drop_first() =~= Seq::<ActionView>::empty());
}

/// When an archive is closed and no entry has changed, nothing is done to
/// it: the walk goes on behind it.
pub proof fn lemma_unchanged_archive_is_left(s: SessionView)
    requires
        s.queue.len() == 0,
        s.pos < s.visits.len(),
        s.visits[s.pos as int] is CloseArchive,
        !s.changed,
    ensures
        dispatch(s) == dispatch(SessionView { pos: s.pos + 1, urls: popped(s.urls, 1), ..s }),
{
}

/// Apart from what was decided before, the walk itself hands out no fetch
/// and no write, and a finalize only for an archive that has changed.
pub proof fn lemma_walk_hands_out(s: SessionView)
    requires
        s.queue.len() == 0,
    ensures
        !(dispatch(s).1 is Fetch),
        !(dispatch(s).1 is WriteFile),
        !(dispatch(s).1 is WriteEntry),
        !(dispatch(s).1 is Defrag),
        !(dispatch(s).1 is MarkExecutable),
        dispatch(s).1 is Finalize ==> dispatch(s).0.queue == seq![ActionView::Defrag],
    decreases s.visits.len() - s.pos,
{
    if s.pos < s.visits.len() {
        match s.visits[s.pos as int] {
            VisitView::EnterDirectory(name) => {
                match checked_url(joined_url(s.urls.last(), directory_segment_text(name))) {
                    Ok(url) => {
                        lemma_walk_hands_out(
                            SessionView {
                                pos: s.pos + 1,
                                urls: s.urls.push(url),
                                dirs: s.dirs.push(name),
                                ..s
                            },
                        );
                    },
                    Err(_) => {},
                }
            },
            VisitView::LeaveDirectory => {
                lemma_walk_hands_out(
                    SessionView {
                        pos: s.pos + 1,
                        urls: popped(s.urls, 1),
                        dirs: popped(s.dirs, 0),
                        ..s
                    },
                );
            },
            VisitView::CloseArchive => {
                if !s.changed {
                    lemma_walk_hands_out(
                        SessionView { pos: s.pos + 1, urls: popped(s.urls, 1), ..s },
                    );
                }
            },
            _ => {},
        }
    }
}

/// A session that ends well has checked every file: the end is handed out
/// only behind the last visit, where the count of checked files has reached
/// the total.
pub proof fn lemma_finish_is_complete(s: SessionView)
    requires
        steady(s),
        s.queue.len() == 0,
        dispatch(s).1 is Finish,
    ensures
        dispatch(s).0.checked == dispatch(s).0.total,
        dispatch(s).0.pos == dispatch(s).0.visits.len(),
        dispatch(s).0.awaiting is Over,
    decreases s.visits.len() - s.pos,
{
    if s.pos < s.visits.len() {
        lemma_leaf_visits_monotonic(s.visits, s.pos + 1, s.visits.len());
        match s.visits[s.pos as int] {
            VisitView::EnterDirectory(name) => {
                match checked_url(joined_url(s.urls.last(), directory_segment_text(name))) {
                    Ok(url) => {
                        lemma_finish_is_complete(
                            SessionView {
                                pos: s.pos + 1,
                                urls: s.urls.push(url),
                                dirs: s.dirs.push(name),
                                ..s
                            },
                        );
                    },
                    Err(_) => {},
                }
            },
            VisitView::LeaveDirectory => {
                lemma_finish_is_complete(
                    SessionView {
                        pos: s.pos + 1,
                        urls: popped(s.urls, 1),
                        dirs: popped(s.dirs, 0),
                        ..s
                    },
                );
            },
            VisitView::CloseArchive => {
                if !s.changed {
                    lemma_finish_is_complete(
                        SessionView { pos: s.pos + 1, urls: popped(s.urls, 1), ..s },
                    );
                }
            },
            _ => {},
        }
    }
}

/// True if `after` is the same walk as `before`, no further back: the
/// visits, the platform, the total and the name of the executable are the
/// same, and no visit that lay behind lies ahead again.
pub open spec fn goes_forward(before: SessionView, after: SessionView) -> bool {
    &&& after.visits == before.visits
    &&& after.platform == before.platform
    &&& after.total == before.total
    &&& after.exe_name == before.exe_name
    &&& after.pos >= before.pos
    &&& after.checked >= before.checked
}

/// Handing out the next action keeps the session in order, and never takes
/// the walk back: what lies behind is never visited again.
pub proof fn lemma_dispatch_goes_forward(s: SessionView)
    requires
        steady(s),
    ensures
        coherent(dispatch(s).0),
        goes_forward(s, dispatch(s).0),
    decreases s.visits.len() - s.pos,
{
    if s.queue.len() == 0 && s.pos < s.visits.len() {
        lemma_leaf_visits_monotonic(s.visits, s.pos + 1, s.visits.len());
        match s.visits[s.pos as int] {
            VisitView::EnterDirectory(name) => {
                match checked_url(joined_url(s.urls.last(), directory_segment_text(name))) {
                    Ok(url) => {
                        lemma_dispatch_goes_forward(
                            SessionView {
                                pos: s.pos + 1,
                                urls: s.urls.push(url),
                                dirs: s.dirs.push(name),
                                ..s
                            },
                        );
                    },
                    Err(_) => {},
                }
            },
            VisitView::LeaveDirectory => {
                lemma_dispatch_goes_forward(
                    SessionView {
                        pos: s.pos + 1,
                        urls: popped(s.urls, 1),
                        dirs: popped(s.dirs, 0),
                        ..s
                    },
                );
            },
            VisitView::CloseArchive => {
                if !s.changed {
                    lemma_dispatch_goes_forward(
                        SessionView { pos: s.pos + 1, urls: popped(s.urls, 1), ..s },
                    );
                }
            },
            _ => {},
        }
    }
}

/// Every step keeps the session in order, and never takes the walk back:
/// each visit is passed once at most, so each file is inspected once at
/// most and each archive is opened and closed once at most.
pub proof fn lemma_next_goes_forward(s: SessionView, e: EventView)
    requires
        coherent(s),
    ensures
        coherent(next(s, e).0),
        goes_forward(s, next(s, e).0),
{
    if accepts(s, e) {
        match e {
            EventView::Failed(_) => {},
            EventView::Done => {
                lemma_dispatch_goes_forward(acknowledged(s));
            },
            EventView::Local(local) => {
                let entry = s.visits[s.pos as int]->File_0;
                let url = s.awaiting->Inspection_url;
                lemma_leaf_visits_monotonic(s.visits, s.pos + 1, s.visits.len());
                match file_plan(
                    entry,
                    s.dirs.push(entry.name),
                    url,
                    local,
                    s.exe_name,
                    report_of(s),
                ) {
                    Ok(plan) => {
                        lemma_dispatch_goes_forward(
                            SessionView {
                                queue: plan,
                                pos: s.pos + 1,
                                checked: s.checked + 1,
                                ..s
                            },
                        );
                    },
                    Err(_) => {},
                }
            },
            EventView::Entry(read) => {
                let entry = s.visits[s.pos as int]->Entry_0;
                lemma_leaf_visits_monotonic(s.visits, s.pos + 1, s.visits.len());
                match entry_matches(entry, read, s.archive) {
                    Err(_) => {},
                    Ok(true) => {
                        lemma_dispatch_goes_forward(
                            SessionView {
                                queue: seq![report_of(s)],
                                pos: s.pos + 1,
                                checked: s.checked + 1,
                                ..s
                            },
                        );
                    },
                    Ok(false) => match checked_url(joined_url(s.urls.last(), entry.name)) {
                        Ok(url) => {
                            lemma_dispatch_goes_forward(
                                SessionView {
                                    queue: entry_plan(entry, url, report_of(s)),
                                    pos: s.pos + 1,
                                    checked: s.checked + 1,
                                    changed: true,
                                    ..s
                                },
                            );
                        },
                        Err(_) => {},
                    },
                }
            },
        }
    }
}

/// Handing out the next action leaves the record of the pending
/// replacement as it is.
pub proof fn lemma_dispatch_keeps_pending(s: SessionView)
    ensures
        dispatch(s).0.pending == s.pending,
    decreases s.visits.len() - s.pos,
{
    if s.queue.len() == 0 && s.pos < s.visits.len() {
        match s.visits[s.pos as int] {
            VisitView::EnterDirectory(name) => {
                match checked_url(joined_url(s.urls.last(), directory_segment_text(name))) {
                    Ok(url) => {
                        lemma_dispatch_keeps_pending(
                            SessionView {
                                pos: s.pos + 1,
                                urls: s.urls.push(url),
                                dirs: s.dirs.push(name),
                                ..s
                            },
                        );
                    },
                    Err(_) => {},
                }
            },
            VisitView::LeaveDirectory => {
                lemma_dispatch_keeps_pending(
                    SessionView {
                        pos: s.pos + 1,
                        urls: popped(s.urls, 1),
                        dirs: popped(s.dirs, 0),
                        ..s
                    },
                );
            },
            VisitView::CloseArchive => {
                if !s.changed {
                    lemma_dispatch_keeps_pending(
                        SessionView { pos: s.pos + 1, urls: popped(s.urls, 1), ..s },
                    );
                }
            },
            _ => {},
        }
    }
}

/// The replacement of the running executable is recorded as pending in one
/// step only: the one that learns that the replacement, which was fetched
/// and written before, has been made executable. No other step changes the
/// record: not the inspection, not the plan, not the fetch, not the write,
/// and no failure.
pub proof fn lemma_pending_is_recorded_last(s: SessionView, e: EventView)
    ensures
        next(s, e).0.pending != s.pending ==> {
            &&& e is Done
            &&& s.awaiting == AwaitingView::Ack(ActionKind::MarkExecutable)
            &&& s.exe_name is Some
            &&& next(s, e).0.pending == Some(update_name_text(s.exe_name->0))
        },
        e is Done && s.awaiting == AwaitingView::Ack(ActionKind::MarkExecutable) && s.exe_name
            is Some ==> next(s, e).0.pending == Some(update_name_text(s.exe_name->0)),
{
    if accepts(s, e) {
        match e {
            EventView::Failed(_) => {},
            EventView::Done => {
                lemma_dispatch_keeps_pending(acknowledged(s));
            },
            EventView::Local(local) => {
                let entry = s.visits[s.pos as int]->File_0;
                let url = s.awaiting->Inspection_url;
                match file_plan(
                    entry,
                    s.dirs.push(entry.name),
                    url,
                    local,
                    s.exe_name,
                    report_of(s),
                ) {
                    Ok(plan) => {
                        lemma_dispatch_keeps_pending(
                            SessionView {
                                queue: plan,
                                pos: s.pos + 1,
                                checked: s.checked + 1,
                                ..s
                            },
                        );
                    },
                    Err(_) => {},
                }
            },
            EventView::Entry(read) => {
                let entry = s.visits[s.pos as int]->Entry_0;
                match entry_matches(entry, read, s.archive) {
                    Err(_) => {},
                    Ok(true) => {
                        lemma_dispatch_keeps_pending(
                            SessionView {
                                queue: seq![report_of(s)],
                                pos: s.pos + 1,
                                checked: s.checked + 1,
                                ..s
                            },
                        );
                    },
                    Ok(false) => match checked_url(joined_url(s.urls.last(), entry.name)) {
                        Ok(url) => {
                            lemma_dispatch_keeps_pending(
                                SessionView {
                                    queue: entry_plan(entry, url, report_of(s)),
                                    pos: s.pos + 1,
                                    checked: s.checked + 1,
                                    changed: true,
                                    ..s
                                },
                            );
                        },
                        Err(_) => {},
                    },
                }
            },
        }
    }
}

/// A failure ends the session at once. Nothing that was decided is handed
/// out any more, so what was not written yet is not written; the record of
/// the pending replacement is as it was; and the session hands out nothing
/// but failures from then on.
pub proof fn lemma_failure_ends_session(s: SessionView, cause: Seq<char>, later: EventView)
    ensures
        ({
            let (ended, action) = next(s, EventView::Failed(cause));
            &&& action is Abort
            &&& ended.awaiting is Over
            &&& ended.queue.len() == 0
            &&& ended.pending == s.pending
            &&& ended.pos == s.pos
            &&& ended.checked == s.checked
            &&& next(ended, later).1 is Abort
            &&& next(ended, later).0 == ended
        }),
{
    let ended = next(s, EventView::Failed(cause)).0;
    assert(next(ended, later).0 =~= ended);
}

} // verus!
