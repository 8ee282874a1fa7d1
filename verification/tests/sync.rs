use aeco_launcher::error::{ArchiveFault, FailureKind};
use aeco_launcher::manifest::{Archive, Directory, FileEntry, ManifestNode};
use aeco_launcher::message::Fraction;
use aeco_launcher::sync::{
    file_matches_in_archive, plan_entry, plan_file, progress_report, summary_report, Action,
    ActionKind, EntryRead, Event, LocalFile, SyncSession, Target,
};

fn entry(name: &str, digest: &str) -> FileEntry {
    FileEntry { name: name.to_string(), digest: digest.to_string() }
}

fn file(name: &str, digest: &str) -> ManifestNode {
    ManifestNode::File(entry(name, digest))
}

fn directory(name: &str, children: Vec<ManifestNode>) -> Directory {
    Directory { name: name.to_string(), children }
}

fn archive(name: &str, files: Vec<FileEntry>) -> ManifestNode {
    ManifestNode::Archive(Archive { name: name.to_string(), files })
}

fn texts(parts: &[&str]) -> Vec<String> {
    parts.iter().map(|p| p.to_string()).collect()
}

fn present(digest: &str) -> Event {
    Event::Local(LocalFile::Present { digest: digest.to_string(), is_running_executable: false })
}

fn running(digest: &str) -> Event {
    Event::Local(LocalFile::Present { digest: digest.to_string(), is_running_executable: true })
}

fn found(digest: &str) -> Event {
    Event::Entry(EntryRead::Found { digest: digest.to_string() })
}

fn report(number: u64, total: u64, platform: &str) -> Action {
    Action::Report {
        text: format!("Checking file {number} / {total} for platform '{platform}'"),
        progress: Fraction { done: number, of: total },
    }
}

fn summary(total: u64) -> Action {
    Action::Report { text: format!("{total} files checked."), progress: Fraction { done: 1, of: 1 } }
}

/// Runs a session to its end. Inspections and readings of entries are
/// answered from `answers`, in order; everything else is reported as done.
fn run(session: &mut SyncSession, answers: Vec<Event>) -> Vec<Action> {
    let mut answers = answers.into_iter();
    let mut actions = Vec::new();
    let mut action = session.start();
    loop {
        let event = match &action {
            Action::Finish | Action::Abort(_) => {
                actions.push(action);
                return actions;
            }
            Action::InspectFile { .. } | Action::ReadEntry { .. } => {
                answers.next().expect("an answer for each question")
            }
            _ => Event::Done,
        };
        actions.push(action);
        assert!(session.expects(&event));
        action = session.step(event);
    }
}

fn count(actions: &[Action], kind: ActionKind) -> usize {
    actions.iter().filter(|a| a.kind() == kind).count()
}

const ROOT: &str = "https://example.com/patch/all/";

#[test]
fn an_absent_file_is_fetched_once_and_written_once() {
    let all = directory("all", vec![file("a.txt", "X")]);
    let mut session = SyncSession::new(&all, ROOT.to_string(), Some("launcher".to_string()));
    let actions = run(&mut session, vec![Event::Local(LocalFile::Absent)]);
    assert_eq!(
        actions,
        vec![
            Action::InspectFile { path: texts(&["a.txt"]) },
            report(1, 1, "all"),
            Action::Fetch { url: "https://example.com/patch/all/a.txt".to_string() },
            Action::WriteFile { target: Target::Install(texts(&["a.txt"])) },
            summary(1),
            Action::Finish,
        ]
    );
    assert_eq!(count(&actions, ActionKind::Fetch), 1);
    assert_eq!(count(&actions, ActionKind::WriteFile), 1);
    let reports: Vec<&Action> = actions
        .iter()
        .filter(|a| matches!(a, Action::Report { text, .. } if text.starts_with("Checking file")))
        .collect();
    assert_eq!(reports.len(), 1);
    assert_eq!(
        reports[0],
        &Action::Report {
            text: "Checking file 1 / 1 for platform 'all'".to_string(),
            progress: Fraction { done: 1, of: 1 },
        }
    );
    assert!(session.is_over());
    assert_eq!(session.checked(), 1);
    assert_eq!(session.total(), 1);
    assert_eq!(session.pending_self_update(), None);
}

#[test]
fn a_file_with_the_right_digest_is_not_fetched() {
    let all = directory("all", vec![file("a.txt", "X")]);
    let mut session = SyncSession::new(&all, ROOT.to_string(), None);
    let actions = run(&mut session, vec![present("X")]);
    assert_eq!(
        actions,
        vec![
            Action::InspectFile { path: texts(&["a.txt"]) },
            report(1, 1, "all"),
            summary(1),
            Action::Finish,
        ]
    );
    assert_eq!(count(&actions, ActionKind::Fetch), 0);
    assert_eq!(count(&actions, ActionKind::WriteFile), 0);
}

#[test]
fn a_file_with_another_digest_is_fetched_and_overwritten() {
    let all = directory("all", vec![file("a.txt", "X")]);
    let mut session = SyncSession::new(&all, ROOT.to_string(), None);
    let actions = run(&mut session, vec![present("x")]);
    assert_eq!(
        actions,
        vec![
            Action::InspectFile { path: texts(&["a.txt"]) },
            report(1, 1, "all"),
            Action::Fetch { url: "https://example.com/patch/all/a.txt".to_string() },
            Action::WriteFile { target: Target::Install(texts(&["a.txt"])) },
            summary(1),
            Action::Finish,
        ]
    );
}

#[test]
fn the_running_executable_is_replaced_beside_itself() {
    let all = directory("all", vec![file("launcher.exe", "NEW"), file("b.txt", "B")]);
    let mut session = SyncSession::new(&all, ROOT.to_string(), Some("launcher.exe".to_string()));
    let actions = run(&mut session, vec![running("OLD"), present("B")]);
    assert_eq!(
        actions,
        vec![
            Action::InspectFile { path: texts(&["launcher.exe"]) },
            report(1, 2, "all"),
            Action::Fetch { url: "https://example.com/patch/all/launcher.exe".to_string() },
            Action::WriteFile {
                target: Target::BesideExecutable("launcher.exe.aecoupdate".to_string()),
            },
            Action::MarkExecutable {
                target: Target::BesideExecutable("launcher.exe.aecoupdate".to_string()),
            },
            Action::InspectFile { path: texts(&["b.txt"]) },
            report(2, 2, "all"),
            summary(2),
            Action::Finish,
        ]
    );
    assert_eq!(session.pending_self_update(), Some("launcher.exe.aecoupdate".to_string()));
}

#[test]
fn the_replacement_is_recorded_only_once_it_is_made_executable() {
    let all = directory("all", vec![file("launcher", "NEW")]);
    let mut session = SyncSession::new(&all, ROOT.to_string(), Some("launcher".to_string()));
    assert_eq!(session.start().kind(), ActionKind::InspectFile);
    assert_eq!(session.step(running("OLD")).kind(), ActionKind::Report);
    assert_eq!(session.pending_self_update(), None);
    assert_eq!(session.step(Event::Done).kind(), ActionKind::Fetch);
    assert_eq!(session.pending_self_update(), None);
    assert_eq!(session.step(Event::Done).kind(), ActionKind::WriteFile);
    assert_eq!(session.pending_self_update(), None);
    assert_eq!(session.step(Event::Done).kind(), ActionKind::MarkExecutable);
    assert_eq!(session.pending_self_update(), None);
    assert_eq!(session.step(Event::Done).kind(), ActionKind::Report);
    assert_eq!(session.pending_self_update(), Some("launcher.aecoupdate".to_string()));
}

#[test]
fn a_replacement_that_fails_on_the_way_is_not_recorded() {
    for failing in [ActionKind::Fetch, ActionKind::WriteFile, ActionKind::MarkExecutable] {
        let all = directory("all", vec![file("launcher", "NEW")]);
        let mut session = SyncSession::new(&all, ROOT.to_string(), Some("launcher".to_string()));
        let mut action = session.start();
        let mut written = 0;
        loop {
            let event = if action.kind() == failing {
                Event::Failed("the cause".to_string())
            } else {
                match &action {
                    Action::InspectFile { .. } => running("OLD"),
                    Action::Abort(_) => break,
                    Action::Finish => panic!("the session should have failed"),
                    Action::WriteFile { .. } => {
                        written += 1;
                        Event::Done
                    }
                    _ => Event::Done,
                }
            };
            action = session.step(event);
        }
        assert!(session.is_over());
        assert_eq!(session.pending_self_update(), None);
        assert_eq!(written, if failing == ActionKind::MarkExecutable { 1 } else { 0 });
    }
}

#[test]
fn a_failed_fetch_writes_nothing() {
    let all = directory("all", vec![file("a.txt", "X"), file("b.txt", "Y")]);
    let mut session = SyncSession::new(&all, ROOT.to_string(), None);
    let mut actions = vec![session.start()];
    actions.push(session.step(present("old")));
    actions.push(session.step(Event::Done));
    assert_eq!(actions[2].kind(), ActionKind::Fetch);
    actions.push(session.step(Event::Failed("404".to_string())));
    match &actions[3] {
        Action::Abort(failure) => {
            assert_eq!(failure.kind, FailureKind::Network);
            assert_eq!(failure.cause, "404");
        }
        other => panic!("expected a failure, got {other:?}"),
    }
    assert_eq!(count(&actions, ActionKind::WriteFile), 0);
    assert!(session.is_over());
    assert_eq!(session.pending_self_update(), None);
    assert!(matches!(session.step(Event::Done), Action::Abort(_)));
}

#[test]
fn the_running_executable_that_is_up_to_date_leaves_nothing_pending() {
    let all = directory("all", vec![file("launcher", "SAME")]);
    let mut session = SyncSession::new(&all, ROOT.to_string(), Some("launcher".to_string()));
    let actions = run(&mut session, vec![running("SAME")]);
    assert_eq!(count(&actions, ActionKind::Fetch), 0);
    assert_eq!(count(&actions, ActionKind::WriteFile), 0);
    assert_eq!(count(&actions, ActionKind::MarkExecutable), 0);
    assert_eq!(session.pending_self_update(), None);
}

#[test]
fn the_running_executable_without_a_readable_name_fails_the_session() {
    let all = directory("all", vec![file("launcher", "NEW")]);
    let mut session = SyncSession::new(&all, ROOT.to_string(), None);
    let actions = run(&mut session, vec![running("NEW")]);
    assert_eq!(actions.len(), 2);
    match &actions[1] {
        Action::Abort(failure) => {
            assert_eq!(failure.kind, FailureKind::Filesystem);
            assert_eq!(failure.message, "Failed to get launcher file name");
        }
        other => panic!("expected a failure, got {other:?}"),
    }
    assert!(session.is_over());
}

#[test]
fn directories_are_entered_with_a_trailing_separator() {
    let all = directory(
        "all",
        vec![
            ManifestNode::Directory(directory(
                "data",
                vec![
                    file("one.bin", "1"),
                    ManifestNode::Directory(directory("deep", vec![file("two.bin", "2")])),
                    file("three.bin", "3"),
                ],
            )),
            file("top.txt", "T"),
        ],
    );
    let mut session = SyncSession::new(&all, ROOT.to_string(), None);
    let actions = run(
        &mut session,
        vec![
            Event::Local(LocalFile::Absent),
            Event::Local(LocalFile::Absent),
            Event::Local(LocalFile::Absent),
            Event::Local(LocalFile::Absent),
        ],
    );
    assert_eq!(
        actions,
        vec![
            Action::InspectFile { path: texts(&["data", "one.bin"]) },
            report(1, 4, "all"),
            Action::Fetch { url: "https://example.com/patch/all/data/one.bin".to_string() },
            Action::WriteFile { target: Target::Install(texts(&["data", "one.bin"])) },
            Action::InspectFile { path: texts(&["data", "deep", "two.bin"]) },
            report(2, 4, "all"),
            Action::Fetch { url: "https://example.com/patch/all/data/deep/two.bin".to_string() },
            Action::WriteFile { target: Target::Install(texts(&["data", "deep", "two.bin"])) },
            Action::InspectFile { path: texts(&["data", "three.bin"]) },
            report(3, 4, "all"),
            Action::Fetch { url: "https://example.com/patch/all/data/three.bin".to_string() },
            Action::WriteFile { target: Target::Install(texts(&["data", "three.bin"])) },
            Action::InspectFile { path: texts(&["top.txt"]) },
            report(4, 4, "all"),
            Action::Fetch { url: "https://example.com/patch/all/top.txt".to_string() },
            Action::WriteFile { target: Target::Install(texts(&["top.txt"])) },
            summary(4),
            Action::Finish,
        ]
    );
}

#[test]
fn a_changed_archive_is_finalized_and_then_defragmented_once() {
    let all = directory(
        "all",
        vec![archive("data", vec![entry("a", "1"), entry("b", "2"), entry("c", "3")])],
    );
    let mut session = SyncSession::new(&all, ROOT.to_string(), None);
    let actions =
        run(&mut session, vec![found("1"), Event::Entry(EntryRead::NotPresent), found("old")]);
    assert_eq!(
        actions,
        vec![
            Action::OpenArchive { directory: texts(&[]), name: "data".to_string() },
            Action::ReadEntry { name: "a".to_string() },
            report(1, 3, "all"),
            Action::ReadEntry { name: "b".to_string() },
            report(2, 3, "all"),
            Action::Fetch { url: "https://example.com/patch/all/data.archive/b".to_string() },
            Action::WriteEntry { name: "b".to_string() },
            Action::ReadEntry { name: "c".to_string() },
            report(3, 3, "all"),
            Action::Fetch { url: "https://example.com/patch/all/data.archive/c".to_string() },
            Action::WriteEntry { name: "c".to_string() },
            Action::Finalize,
            Action::Defrag,
            summary(3),
            Action::Finish,
        ]
    );
    assert_eq!(count(&actions, ActionKind::Finalize), 1);
    assert_eq!(count(&actions, ActionKind::Defrag), 1);
}

#[test]
fn an_unchanged_archive_is_neither_finalized_nor_defragmented() {
    let all = directory(
        "all",
        vec![
            ManifestNode::Directory(directory(
                "packs",
                vec![archive("data", vec![entry("a", "1"), entry("b", "2")])],
            )),
            file("after.txt", "A"),
        ],
    );
    let mut session = SyncSession::new(&all, ROOT.to_string(), None);
    let actions = run(&mut session, vec![found("1"), found("2"), present("A")]);
    assert_eq!(
        actions,
        vec![
            Action::OpenArchive { directory: texts(&["packs"]), name: "data".to_string() },
            Action::ReadEntry { name: "a".to_string() },
            report(1, 3, "all"),
            Action::ReadEntry { name: "b".to_string() },
            report(2, 3, "all"),
            Action::InspectFile { path: texts(&["after.txt"]) },
            report(3, 3, "all"),
            summary(3),
            Action::Finish,
        ]
    );
    assert_eq!(count(&actions, ActionKind::Finalize), 0);
    assert_eq!(count(&actions, ActionKind::Defrag), 0);
}

#[test]
fn each_archive_is_closed_on_its_own() {
    let all = directory(
        "all",
        vec![
            archive("first", vec![entry("a", "1")]),
            archive("second", vec![entry("b", "2")]),
            archive("third", vec![]),
        ],
    );
    let mut session = SyncSession::new(&all, ROOT.to_string(), None);
    let actions = run(&mut session, vec![Event::Entry(EntryRead::NotPresent), found("2")]);
    assert_eq!(
        actions,
        vec![
            Action::OpenArchive { directory: texts(&[]), name: "first".to_string() },
            Action::ReadEntry { name: "a".to_string() },
            report(1, 2, "all"),
            Action::Fetch { url: "https://example.com/patch/all/first.archive/a".to_string() },
            Action::WriteEntry { name: "a".to_string() },
            Action::Finalize,
            Action::Defrag,
            Action::OpenArchive { directory: texts(&[]), name: "second".to_string() },
            Action::ReadEntry { name: "b".to_string() },
            report(2, 2, "all"),
            Action::OpenArchive { directory: texts(&[]), name: "third".to_string() },
            summary(2),
            Action::Finish,
        ]
    );
}

#[test]
fn a_store_that_fails_to_read_fails_the_archive() {
    let all = directory("all", vec![archive("data", vec![entry("a", "1"), entry("b", "2")])]);
    let mut session = SyncSession::new(&all, ROOT.to_string(), None);
    let actions = run(&mut session, vec![Event::Entry(EntryRead::Other("bad header".to_string()))]);
    assert_eq!(actions.len(), 3);
    match &actions[2] {
        Action::Abort(failure) => {
            assert_eq!(failure.kind, FailureKind::Archive(ArchiveFault::Other));
            assert_eq!(failure.message, "Failed while reading data");
            assert_eq!(failure.cause, "bad header");
        }
        other => panic!("expected a failure, got {other:?}"),
    }
    assert!(session.is_over());
}

fn failure_after(kind: ActionKind, answers: Vec<Event>, tree: Directory) -> (FailureKind, String) {
    let mut answers = answers.into_iter();
    let mut session = SyncSession::new(&tree, ROOT.to_string(), Some("launcher".to_string()));
    let mut action = session.start();
    loop {
        let event = if action.kind() == kind {
            Event::Failed("the cause".to_string())
        } else {
            match &action {
                Action::InspectFile { .. } | Action::ReadEntry { .. } => answers.next().unwrap(),
                Action::Abort(failure) => {
                    assert_eq!(failure.cause, "the cause");
                    return (failure.kind, failure.message.clone());
                }
                Action::Finish => panic!("the session should have failed"),
                _ => Event::Done,
            }
        };
        assert!(session.expects(&event));
        action = session.step(event);
    }
}

#[test]
fn each_failure_says_what_was_being_done() {
    let one_file = || directory("all", vec![file("launcher", "NEW")]);
    let one_archive = || directory("all", vec![archive("data", vec![entry("a", "1")])]);
    assert_eq!(
        failure_after(ActionKind::InspectFile, vec![], one_file()),
        (FailureKind::Filesystem, "Couldn't read the local file".to_string())
    );
    assert_eq!(
        failure_after(ActionKind::Fetch, vec![Event::Local(LocalFile::Absent)], one_file()),
        (FailureKind::Network, "Couldn't download the file".to_string())
    );
    assert_eq!(
        failure_after(ActionKind::WriteFile, vec![Event::Local(LocalFile::Absent)], one_file()),
        (FailureKind::Filesystem, "Couldn't write the file".to_string())
    );
    assert_eq!(
        failure_after(ActionKind::MarkExecutable, vec![running("OLD")], one_file()),
        (FailureKind::Filesystem, "Couldn't make the file executable".to_string())
    );
    assert_eq!(
        failure_after(ActionKind::OpenArchive, vec![], one_archive()),
        (FailureKind::Archive(ArchiveFault::Other), "Couldn't open archive data".to_string())
    );
    assert_eq!(
        failure_after(ActionKind::ReadEntry, vec![], one_archive()),
        (FailureKind::Archive(ArchiveFault::Other), "Failed while reading data".to_string())
    );
    assert_eq!(
        failure_after(
            ActionKind::WriteEntry,
            vec![Event::Entry(EntryRead::NotPresent)],
            one_archive()
        ),
        (FailureKind::Archive(ArchiveFault::Other), "Couldn't write to archive data".to_string())
    );
    assert_eq!(
        failure_after(
            ActionKind::Finalize,
            vec![Event::Entry(EntryRead::NotPresent)],
            one_archive()
        ),
        (FailureKind::Archive(ArchiveFault::Other), "Couldn't finalize archive data".to_string())
    );
    assert_eq!(
        failure_after(ActionKind::Defrag, vec![Event::Entry(EntryRead::NotPresent)], one_archive()),
        (FailureKind::Archive(ArchiveFault::Other), "Couldn't defrag archive data".to_string())
    );
}

#[test]
fn a_failure_ends_the_session_without_a_skip() {
    let all = directory("all", vec![file("a", "1"), file("b", "2")]);
    let mut session = SyncSession::new(&all, ROOT.to_string(), None);
    let first = session.start();
    assert_eq!(first, Action::InspectFile { path: texts(&["a"]) });
    let action = session.step(Event::Failed("unreadable".to_string()));
    assert!(matches!(action, Action::Abort(_)));
    assert!(session.is_over());
    assert!(!session.expects(&Event::Done));
    assert_eq!(session.checked(), 0);
}

#[test]
fn a_name_that_makes_no_url_fails_the_session() {
    let all = directory("all", vec![file("a", "1"), file("http://[", "2")]);
    let mut session = SyncSession::new(&all, ROOT.to_string(), None);
    let actions = run(&mut session, vec![present("1")]);
    match actions.last() {
        Some(Action::Abort(failure)) => {
            assert_eq!(failure.kind, FailureKind::Parse);
            assert_eq!(failure.message, "Invalid URL");
        }
        other => panic!("expected a failure, got {other:?}"),
    }
    assert_eq!(count(&actions, ActionKind::InspectFile), 1);
}

#[test]
fn an_empty_subtree_is_finished_at_once() {
    let all = directory("all", vec![ManifestNode::Directory(directory("empty", vec![]))]);
    let mut session = SyncSession::new(&all, ROOT.to_string(), None);
    let actions = run(&mut session, vec![]);
    assert_eq!(actions, vec![summary(0), Action::Finish]);
    assert_eq!(session.total(), 0);
}

#[test]
fn a_session_begins_below_the_directory_of_its_platform() {
    let tree = directory("linux-x86_64", vec![file("a", "1")]);
    let mut session = SyncSession::begin("https://example.com/patch/", &tree, None)
        .expect("the platform's URL can be made");
    let actions = run(&mut session, vec![Event::Local(LocalFile::Absent)]);
    assert_eq!(
        actions[2],
        Action::Fetch { url: "https://example.com/patch/linux-x86_64/a".to_string() }
    );
    assert_eq!(actions[1], report(1, 1, "linux-x86_64"));
}

#[test]
fn a_session_does_not_begin_below_a_base_that_is_no_url() {
    let tree = directory("all", vec![]);
    let failure = SyncSession::begin("not a url", &tree, None).expect_err("no URL can be made");
    assert_eq!(failure.kind, FailureKind::Parse);
}

#[test]
fn the_session_expects_what_it_asked_for() {
    let all = directory("all", vec![file("a", "1"), archive("arc", vec![entry("e", "1")])]);
    let mut session = SyncSession::new(&all, ROOT.to_string(), None);
    assert!(session.expects(&Event::Done));
    assert!(!session.expects(&Event::Failed("x".to_string())));
    assert!(!session.expects(&present("1")));
    let action = session.start();
    assert_eq!(action.kind(), ActionKind::InspectFile);
    assert!(session.expects(&present("1")));
    assert!(session.expects(&Event::Failed("x".to_string())));
    assert!(!session.expects(&Event::Done));
    assert!(!session.expects(&found("1")));
    let action = session.step(present("1"));
    assert_eq!(action.kind(), ActionKind::Report);
    assert!(session.expects(&Event::Done));
    assert!(!session.expects(&Event::Failed("x".to_string())));
    let action = session.step(Event::Done);
    assert_eq!(action.kind(), ActionKind::OpenArchive);
    assert!(session.expects(&Event::Done));
    assert!(session.expects(&Event::Failed("x".to_string())));
    let action = session.step(Event::Done);
    assert_eq!(action.kind(), ActionKind::ReadEntry);
    assert!(session.expects(&found("1")));
    assert!(!session.expects(&present("1")));
}

#[test]
fn a_session_may_be_started_by_the_news_that_it_may_go_on() {
    let all = directory("all", vec![file("a", "1")]);
    let mut started = SyncSession::new(&all, ROOT.to_string(), None);
    let mut stepped = SyncSession::new(&all, ROOT.to_string(), None);
    assert_eq!(started.start(), stepped.step(Event::Done));
    assert_eq!(started, stepped);
}

#[test]
fn an_outcome_that_was_not_asked_for_ends_the_session() {
    let all = directory("all", vec![file("a", "1"), file("b", "2")]);
    let mut session = SyncSession::new(&all, ROOT.to_string(), None);
    assert_eq!(session.start().kind(), ActionKind::InspectFile);
    match session.step(Event::Done) {
        Action::Abort(failure) => {
            assert_eq!(failure.kind, FailureKind::Filesystem);
            assert_eq!(failure.message, "An outcome arrived out of turn");
        }
        other => panic!("expected a failure, got {other:?}"),
    }
    assert!(session.is_over());
    assert!(matches!(session.step(Event::Done), Action::Abort(_)));
    assert!(session.is_over());
}

#[test]
fn the_plan_for_a_file_follows_the_digest_alone() {
    let wanted = entry("a.txt", "X");
    let plan = |local: LocalFile| {
        plan_file(
            &wanted,
            texts(&["dir", "a.txt"]),
            "https://example.com/a.txt".to_string(),
            &local,
            &Some("launcher".to_string()),
            report(3, 7, "all"),
        )
        .expect("a plan")
    };
    assert_eq!(
        plan(LocalFile::Present { digest: "X".to_string(), is_running_executable: false }),
        vec![report(3, 7, "all")]
    );
    assert_eq!(
        plan(LocalFile::Absent),
        vec![
            report(3, 7, "all"),
            Action::Fetch { url: "https://example.com/a.txt".to_string() },
            Action::WriteFile { target: Target::Install(texts(&["dir", "a.txt"])) },
        ]
    );
    assert_eq!(
        plan(LocalFile::Present { digest: "Y".to_string(), is_running_executable: true }),
        vec![
            report(3, 7, "all"),
            Action::Fetch { url: "https://example.com/a.txt".to_string() },
            Action::WriteFile { target: Target::BesideExecutable("launcher.aecoupdate".to_string()) },
            Action::MarkExecutable {
                target: Target::BesideExecutable("launcher.aecoupdate".to_string()),
            },
        ]
    );
}

#[test]
fn an_entry_matches_by_its_digest() {
    let wanted = entry("a", "X");
    assert_eq!(
        file_matches_in_archive(&wanted, EntryRead::Found { digest: "X".to_string() }, "data"),
        Ok(true)
    );
    assert_eq!(
        file_matches_in_archive(&wanted, EntryRead::Found { digest: "Y".to_string() }, "data"),
        Ok(false)
    );
    assert_eq!(file_matches_in_archive(&wanted, EntryRead::NotPresent, "data"), Ok(false));
    let failure = file_matches_in_archive(&wanted, EntryRead::Other("io".to_string()), "data")
        .expect_err("the store failed");
    assert_eq!(failure.kind, FailureKind::Archive(ArchiveFault::Other));
    assert_eq!(failure.message, "Failed while reading data");
    assert_eq!(failure.cause, "io");
}

#[test]
fn an_answer_of_the_store_stands_for_a_fault_or_for_none() {
    assert_eq!(EntryRead::Found { digest: "X".to_string() }.fault(), None);
    assert_eq!(EntryRead::NotPresent.fault(), Some(ArchiveFault::NotPresent));
    assert_eq!(EntryRead::Other("io".to_string()).fault(), Some(ArchiveFault::Other));
}

#[test]
fn the_plan_for_an_entry_is_report_fetch_and_write() {
    let wanted = entry("inner/a", "X");
    assert_eq!(
        plan_entry(&wanted, "https://example.com/x.archive/inner/a".to_string(), report(1, 2, "p")),
        vec![
            report(1, 2, "p"),
            Action::Fetch { url: "https://example.com/x.archive/inner/a".to_string() },
            Action::WriteEntry { name: "inner/a".to_string() },
        ]
    );
}

#[test]
fn reports_are_written_out_in_decimal() {
    assert_eq!(
        progress_report(12, 345, "windows-x86_64"),
        Action::Report {
            text: "Checking file 12 / 345 for platform 'windows-x86_64'".to_string(),
            progress: Fraction { done: 12, of: 345 },
        }
    );
    assert_eq!(
        summary_report(1000),
        Action::Report {
            text: "1000 files checked.".to_string(),
            progress: Fraction { done: 1, of: 1 },
        }
    );
    assert_eq!(
        summary_report(0),
        Action::Report { text: "0 files checked.".to_string(), progress: Fraction { done: 1, of: 1 } }
    );
}
