//! What holds of every run of a session, whatever the outcomes of the
//! actions are, failures included.

use vstd::prelude::*;
use vstd::string::*;
use crate::manifest::{leaf_count_among, DirectoryView};
use crate::runs::{feed, is_plain, lemma_initial_is_coherent};
use crate::sync::{
    accepts, acknowledged, coherent, dispatch, entry_matches, entry_plan, file_plan,
    goes_forward, initial, kind_of, lemma_next_goes_forward, lemma_pending_is_recorded_last, next, popped, report_of, steady, ActionKind,
    ActionView, AwaitingView, EventView, SessionView,
};
use crate::traversal::{is_leaf, lemma_leaf_visits_monotonic, VisitView};
use crate::urls::{checked_url, directory_segment_text, joined_url};

verus! {

/// True for the actions that write what was fetched.
pub open spec fn is_write(action: ActionView) -> bool {
    action is WriteFile || action is WriteEntry
}

/// What holds of the queue of every session: it holds only actions that ask
/// for no answer; it never holds a finalize; it holds a defrag only as its
/// one action, right after the finalize was handed out; and it holds a
/// write only right behind the fetch of what is to be written, or in front
/// when that fetch was handed out last.
pub open spec fn tidy(s: SessionView) -> bool {
    &&& forall|i: int| 0 <= i < s.queue.len() ==> is_plain(#[trigger] s.queue[i])
    &&& forall|i: int|
        0 <= i < s.queue.len() && (#[trigger] s.queue[i]) is Defrag ==> s.queue.len() == 1
            && s.awaiting == AwaitingView::Ack(ActionKind::Finalize)
    &&& forall|i: int|
        0 < i < s.queue.len() && is_write(#[trigger] s.queue[i]) ==> s.queue[i - 1] is Fetch
    &&& s.queue.len() > 0 && is_write(s.queue[0]) ==> s.awaiting == AwaitingView::Ack(
        ActionKind::Fetch,
    )
}

/// True if what the session waits for is the outcome of this action: the
/// session keeps track of what it handed out last.
pub open spec fn waits_for(s: SessionView, action: ActionView) -> bool {
    match action {
        ActionView::InspectFile { .. } => s.awaiting is Inspection,
        ActionView::ReadEntry { .. } => s.awaiting is Entry,
        ActionView::Finish => s.awaiting is Over,
        ActionView::Abort(_) => s.awaiting is Over,
        ActionView::Report { .. } => s.awaiting == AwaitingView::Ack(ActionKind::Report)
            || s.awaiting is Summary,
        _ => s.awaiting == AwaitingView::Ack(kind_of(action)),
    }
}

/// What the walk hands out when nothing is queued leaves the queue tidy,
/// and the session waits for the outcome of what was handed out.
pub proof fn lemma_walk_is_tidy(s: SessionView)
    requires
        s.queue.len() == 0,
    ensures
        tidy(dispatch(s).0),
        waits_for(dispatch(s).0, dispatch(s).1),
        dispatch(s).1 is Finalize ==> s.changed && !dispatch(s).0.changed && dispatch(s).0.queue
            == seq![ActionView::Defrag],
        !(dispatch(s).1 is Defrag),
        !(dispatch(s).1 is Fetch),
        !(dispatch(s).1 is WriteFile),
        !(dispatch(s).1 is WriteEntry),
        !(dispatch(s).1 is MarkExecutable),
    decreases s.visits.len() - s.pos,
{
    if s.pos < s.visits.len() {
        match s.visits[s.pos as int] {
            VisitView::EnterDirectory(name) => {
                match checked_url(joined_url(s.urls.last(), directory_segment_text(name))) {
                    Ok(url) => {
                        lemma_walk_is_tidy(
                            SessionView {
                                pos: s.pos + 1,
                                urls: s.urls.push(url),
                                dirs: s.dirs.push(name),
                                ..s
                            },
                        );
                    },
                    Err(_) => {},
                }
            },
            VisitView::LeaveDirectory => {
                lemma_walk_is_tidy(
                    SessionView {
                        pos: s.pos + 1,
                        urls: popped(s.urls, 1),
                        dirs: popped(s.dirs, 0),
                        ..s
                    },
                );
            },
            VisitView::CloseArchive => {
                if !s.changed {
                    lemma_walk_is_tidy(
                        SessionView { pos: s.pos + 1, urls: popped(s.urls, 1), ..s },
                    );
                }
            },
            _ => {},
        }
    }
}

/// Handing out the next action leaves the queue tidy, and the session
/// waits for the outcome of what was handed out.
pub proof fn lemma_dispatch_is_tidy(s: SessionView)
    requires
        tidy(s),
    ensures
        tidy(dispatch(s).0),
        waits_for(dispatch(s).0, dispatch(s).1),
        dispatch(s).1 is Defrag ==> s.awaiting == AwaitingView::Ack(ActionKind::Finalize),
        is_write(dispatch(s).1) ==> s.awaiting == AwaitingView::Ack(ActionKind::Fetch),
        dispatch(s).1 is Finalize ==> s.queue.len() == 0 && s.changed && !dispatch(s).0.changed
            && dispatch(s).0.queue == seq![ActionView::Defrag],
{
    if s.queue.len() == 0 {
        lemma_walk_is_tidy(s);
    } else {
        let after = dispatch(s).0;
        assert(is_plain(s.queue[0]));
        assert forall|i: int| 0 <= i < after.queue.len() implies is_plain(
            #[trigger] after.queue[i],
        ) && !(after.queue[i] is Defrag) by {
            assert(after.queue[i] == s.queue[i + 1]);
            assert(is_plain(s.queue[i + 1]));
        }
        assert forall|i: int| 0 < i < after.queue.len() && is_write(
            #[trigger] after.queue[i],
        ) implies after.queue[i - 1] is Fetch by {
            assert(after.queue[i] == s.queue[i + 1]);
            assert(after.queue[i - 1] == s.queue[i]);
        }
        if after.queue.len() > 0 && is_write(after.queue[0]) {
            assert(after.queue[0] == s.queue[1]);
            assert(is_write(s.queue[1]));
        }
    }
}

/// Every step leaves the queue tidy, and after every step the session
/// waits for the outcome of what it handed out.
pub proof fn lemma_next_is_tidy(s: SessionView, e: EventView)
    requires
        tidy(s),
    ensures
        tidy(next(s, e).0),
        waits_for(next(s, e).0, next(s, e).1),
{
    lemma_step_is_safe(s, e);
}

/// What holds of every step of every session, whatever the event:
/// - a defrag is handed out only when the finalize that was handed out
///   just before is reported as done;
/// - a finalize is handed out only when the action before is reported as
///   done, nothing is left to hand out, and an entry of the archive has
///   changed; the defrag is then the one thing that is queued, and the
///   archive counts as unchanged from then on;
/// - a write is handed out only when the fetch that was handed out just
///   before is reported as done;
/// - a failure, and an event out of turn, hand out nothing but the end.
pub proof fn lemma_step_is_safe(s: SessionView, e: EventView)
    requires
        tidy(s),
    ensures
        tidy(next(s, e).0),
        waits_for(next(s, e).0, next(s, e).1),
        next(s, e).1 is Defrag ==> e is Done && s.awaiting == AwaitingView::Ack(
            ActionKind::Finalize,
        ),
        is_write(next(s, e).1) ==> e is Done && s.awaiting == AwaitingView::Ack(
            ActionKind::Fetch,
        ),
        next(s, e).1 is Finalize ==> e is Done && s.queue.len() == 0 && s.changed && !next(
            s,
            e,
        ).0.changed && next(s, e).0.queue == seq![ActionView::Defrag],
        e is Failed || !accepts(s, e) ==> next(s, e).1 is Abort && next(s, e).0.queue.len() == 0,
{
    if accepts(s, e) {
        match e {
            EventView::Failed(_) => {},
            EventView::Done => {
                lemma_dispatch_is_tidy(acknowledged(s));
            },
            EventView::Local(local) => {
                let entry = s.visits[s.pos as int]->File_0;
                let url = s.awaiting->Inspection_url;
                match file_plan(
                    entry,
                    s.dirs.push(entry.name),
                    url,
                    local,
                    s.exe_name,
                    report_of(s),
                ) {
                    Ok(plan) => {
                        let decided = SessionView {
                            queue: plan,
                            pos: s.pos + 1,
                            checked: s.checked + 1,
                            ..s
                        };
                        assert(plan.len() >= 1 && plan[0] is Report);
                        assert(tidy(decided));
                        lemma_dispatch_is_tidy(decided);
                    },
                    Err(_) => {},
                }
            },
            EventView::Entry(read) => {
                let entry = s.visits[s.pos as int]->Entry_0;
                match entry_matches(entry, read, s.archive) {
                    Err(_) => {},
                    Ok(true) => {
                        let decided = SessionView {
                            queue: seq![report_of(s)],
                            pos: s.pos + 1,
                            checked: s.checked + 1,
                            ..s
                        };
                        assert(tidy(decided));
                        lemma_dispatch_is_tidy(decided);
                    },
                    Ok(false) => match checked_url(joined_url(s.urls.last(), entry.name)) {
                        Ok(url) => {
                            let decided = SessionView {
                                queue: entry_plan(entry, url, report_of(s)),
                                pos: s.pos + 1,
                                checked: s.checked + 1,
                                changed: true,
                                ..s
                            };
                            assert(tidy(decided));
                            lemma_dispatch_is_tidy(decided);
                        },
                        Err(_) => {},
                    },
                }
            },
        }
    }
}

/// What is left of a run after its first event.
pub proof fn lemma_feed_rest(s: SessionView, events: Seq<EventView>, i: int)
    requires
        0 < i < events.len(),
    ensures
        feed(s, events).1.len() == events.len(),
        feed(s, events).1[0] == next(s, events[0]).1,
        feed(s, events).1[i] == feed(next(s, events[0]).0, events.drop_first()).1[i - 1],
    decreases events.len(),
{
    lemma_feed_len(s, events);
    lemma_feed_len(next(s, events[0]).0, events.drop_first());
}

/// One action is handed out for each event.
pub proof fn lemma_feed_len(s: SessionView, events: Seq<EventView>)
    ensures
        feed(s, events).1.len() == events.len(),
        events.len() > 0 ==> feed(s, events).1[0] == next(s, events[0]).1,
    decreases events.len(),
{
    if events.len() > 0 {
        lemma_feed_len(next(s, events[0]).0, events.drop_first());
    }
}

/// In every run, whatever the events: where a defrag is handed out, the
/// action handed out just before it is the finalize, and the event that
/// brought the defrag is the news that the finalize is done. So there is no
/// defrag without a finalize before it that succeeded. (In a run that
/// begins in the middle, right after a finalize, the defrag may come first.)
pub proof fn lemma_defrag_follows_finalize(s: SessionView, events: Seq<EventView>, i: int)
    requires
        tidy(s),
        0 <= i < events.len(),
        feed(s, events).1[i] is Defrag,
    ensures
        events[i] is Done,
        i > 0 ==> feed(s, events).1[i - 1] is Finalize,
        i == 0 ==> s.awaiting == AwaitingView::Ack(ActionKind::Finalize),
    decreases i,
{
    lemma_feed_len(s, events);
    let after = next(s, events[0]).0;
    let rest = events.drop_first();
    lemma_step_is_safe(s, events[0]);
    if i == 0 {
    } else {
        lemma_feed_rest(s, events, i);
        lemma_defrag_follows_finalize(after, rest, i - 1);
        assert(rest[i - 1] == events[i]);
        if i == 1 {
            assert(after.awaiting == AwaitingView::Ack(ActionKind::Finalize));
            assert(feed(s, events).1[0] == next(s, events[0]).1);
        } else {
            lemma_feed_rest(s, events, i - 1);
        }
    }
}

/// In every run, whatever the events: what follows a finalize is the defrag
/// if the finalize is reported as done, and the end of the session with a
/// failure otherwise. Nothing else is ever handed out between the two.
pub proof fn lemma_finalize_is_followed(s: SessionView, events: Seq<EventView>, i: int)
    requires
        tidy(s),
        0 <= i,
        i + 1 < events.len(),
        feed(s, events).1[i] is Finalize,
    ensures
        events[i + 1] is Done ==> feed(s, events).1[i + 1] is Defrag,
        !(events[i + 1] is Done) ==> feed(s, events).1[i + 1] is Abort,
    decreases i,
{
    lemma_feed_len(s, events);
    let after = next(s, events[0]).0;
    let rest = events.drop_first();
    lemma_step_is_safe(s, events[0]);
    lemma_feed_rest(s, events, i + 1);
    if i == 0 {
        lemma_feed_len(after, rest);
        assert(rest[0] == events[1]);
        assert(after.queue == seq![ActionView::Defrag]);
        assert(after.awaiting == AwaitingView::Ack(ActionKind::Finalize));
        assert(after.queue[0] == ActionView::Defrag);
    } else {
        lemma_feed_rest(s, events, i);
        assert(rest[i] == events[i + 1]);
        lemma_finalize_is_followed(after, rest, i - 1);
    }
}

/// The state after the first `count + 1` of the events.
pub open spec fn state_after(s: SessionView, events: Seq<EventView>, count: int) -> SessionView
    decreases count,
{
    if count <= 0 || events.len() == 0 {
        next(s, events[0]).0
    } else {
        state_after(next(s, events[0]).0, events.drop_first(), count - 1)
    }
}

/// Where the walk hands out a finalize, it has just passed the visit that
/// closes the archive.
pub proof fn lemma_walk_finalizes_at_close(s: SessionView)
    requires
        steady(s),
        s.queue.len() == 0,
        dispatch(s).1 is Finalize,
    ensures
        dispatch(s).0.pos > s.pos,
        dispatch(s).0.pos <= s.visits.len(),
        dispatch(s).0.visits == s.visits,
        s.visits[dispatch(s).0.pos - 1] is CloseArchive,
    decreases s.visits.len() - s.pos,
{
    if s.pos < s.visits.len() {
        lemma_leaf_visits_monotonic(s.visits, s.pos + 1, s.visits.len());
        match s.visits[s.pos as int] {
            VisitView::EnterDirectory(name) => {
                match checked_url(joined_url(s.urls.last(), directory_segment_text(name))) {
                    Ok(url) => {
                        lemma_walk_finalizes_at_close(
                            SessionView {
                                pos: s.pos + 1,
                                urls: s.urls.push(url),
                                dirs: s.dirs.push(name),
                                ..s
                            },
                        );
                    },
                    Err(_) => {},
                }
            },
            VisitView::LeaveDirectory => {
                lemma_walk_finalizes_at_close(
                    SessionView {
                        pos: s.pos + 1,
                        urls: popped(s.urls, 1),
                        dirs: popped(s.dirs, 0),
                        ..s
                    },
                );
            },
            VisitView::CloseArchive => {
                if !s.changed {
                    lemma_walk_finalizes_at_close(
                        SessionView { pos: s.pos + 1, urls: popped(s.urls, 1), ..s },
                    );
                }
            },
            _ => {},
        }
    }
}

/// The step that hands out a finalize takes the walk past the visit that
/// closes an archive: that archive lies behind from then on.
pub proof fn lemma_finalize_closes_archive(s: SessionView, e: EventView)
    requires
        coherent(s),
        tidy(s),
        next(s, e).1 is Finalize,
    ensures
        next(s, e).0.pos > s.pos,
        next(s, e).0.visits == s.visits,
        s.visits[next(s, e).0.pos - 1] is CloseArchive,
{
    lemma_step_is_safe(s, e);
    lemma_walk_finalizes_at_close(acknowledged(s));
}

/// Every state of a run is in order, and none lies further back than the
/// state in which the run began.
pub proof fn lemma_states_go_forward(s: SessionView, events: Seq<EventView>, count: int)
    requires
        coherent(s),
        tidy(s),
        0 <= count < events.len(),
    ensures
        coherent(state_after(s, events, count)),
        tidy(state_after(s, events, count)),
        goes_forward(s, state_after(s, events, count)),
    decreases count,
{
    lemma_next_goes_forward(s, events[0]);
    lemma_step_is_safe(s, events[0]);
    if count > 0 {
        lemma_states_go_forward(next(s, events[0]).0, events.drop_first(), count - 1);
    }
}

/// In every run, whatever the events: where a finalize is handed out, the
/// walk has passed, in that very step, the visit that closes an archive.
pub proof fn lemma_finalize_is_at_close(s: SessionView, events: Seq<EventView>, i: int)
    requires
        coherent(s),
        tidy(s),
        0 <= i < events.len(),
        feed(s, events).1[i] is Finalize,
    ensures
        state_after(s, events, i).pos > s.pos,
        state_after(s, events, i).visits == s.visits,
        s.visits[state_after(s, events, i).pos - 1] is CloseArchive,
    decreases i,
{
    lemma_feed_len(s, events);
    if i == 0 {
        lemma_finalize_closes_archive(s, events[0]);
    } else {
        let after = next(s, events[0]).0;
        lemma_feed_rest(s, events, i);
        lemma_next_goes_forward(s, events[0]);
        lemma_step_is_safe(s, events[0]);
        lemma_finalize_is_at_close(after, events.drop_first(), i - 1);
    }
}

/// In every run, whatever the events, no archive is finalized twice: each
/// finalize closes an archive, and a later finalize closes an archive that
/// lies further on in the walk. With what is shown of the defrag, no
/// archive is defragmented twice either.
pub proof fn lemma_finalize_once_per_archive(
    s: SessionView,
    events: Seq<EventView>,
    i: int,
    j: int,
)
    requires
        coherent(s),
        tidy(s),
        0 <= i < j < events.len(),
        feed(s, events).1[i] is Finalize,
        feed(s, events).1[j] is Finalize,
    ensures
        s.visits[state_after(s, events, i).pos - 1] is CloseArchive,
        s.visits[state_after(s, events, j).pos - 1] is CloseArchive,
        state_after(s, events, i).pos < state_after(s, events, j).pos,
    decreases i,
{
    lemma_feed_len(s, events);
    let after = next(s, events[0]).0;
    let rest = events.drop_first();
    lemma_next_goes_forward(s, events[0]);
    lemma_step_is_safe(s, events[0]);
    lemma_feed_rest(s, events, j);
    lemma_finalize_is_at_close(s, events, i);
    lemma_finalize_is_at_close(s, events, j);
    if i == 0 {
        lemma_finalize_is_at_close(after, rest, j - 1);
    } else {
        lemma_feed_rest(s, events, i);
        lemma_finalize_once_per_archive(after, rest, i - 1, j - 1);
    }
}

/// No file and no entry is passed without being examined: the one step
/// that takes the walk past a file is the one that learns what is at its
/// place, and the one step that takes the walk past an entry is the one
/// that learns what the store holds of it. So when an archive is closed,
/// every entry that the manifest declares for it has been examined.
pub proof fn lemma_leaves_are_examined(s: SessionView, e: EventView, at: int)
    requires
        coherent(s),
        s.pos <= at < next(s, e).0.pos,
        is_leaf(s.visits[at]),
    ensures
        at == s.pos,
        s.visits[at] is File ==> e is Local && s.awaiting is Inspection,
        s.visits[at] is Entry ==> e is Entry && s.awaiting is Entry,
{
    if accepts(s, e) {
        match e {
            EventView::Failed(_) => {},
            EventView::Done => {
                lemma_walk_stops_at_leaves(acknowledged(s), at);
            },
            EventView::Local(local) => {
                let entry = s.visits[s.pos as int]->File_0;
                let url = s.awaiting->Inspection_url;
                match file_plan(
                    entry,
                    s.dirs.push(entry.name),
                    url,
                    local,
                    s.exe_name,
                    report_of(s),
                ) {
                    Ok(plan) => {
                        let decided = SessionView {
                            queue: plan,
                            pos: s.pos + 1,
                            checked: s.checked + 1,
                            ..s
                        };
                        if at > s.pos {
                            lemma_walk_stops_at_leaves(decided, at);
                        }
                    },
                    Err(_) => {},
                }
            },
            EventView::Entry(read) => {
                let entry = s.visits[s.pos as int]->Entry_0;
                match entry_matches(entry, read, s.archive) {
                    Err(_) => {},
                    Ok(true) => {
                        let decided = SessionView {
                            queue: seq![report_of(s)],
                            pos: s.pos + 1,
                            checked: s.checked + 1,
                            ..s
                        };
                        if at > s.pos {
                            lemma_walk_stops_at_leaves(decided, at);
                        }
                    },
                    Ok(false) => match checked_url(joined_url(s.urls.last(), entry.name)) {
                        Ok(url) => {
                            let decided = SessionView {
                                queue: entry_plan(entry, url, report_of(s)),
                                pos: s.pos + 1,
                                checked: s.checked + 1,
                                changed: true,
                                ..s
                            };
                            if at > s.pos {
                                lemma_walk_stops_at_leaves(decided, at);
                            }
                        },
                        Err(_) => {},
                    },
                }
            },
        }
    }
}

/// Handing out the next action never takes the walk past a file or an
/// entry: the walk stops in front of each.
pub proof fn lemma_walk_stops_at_leaves(s: SessionView, at: int)
    requires
        s.pos <= at < dispatch(s).0.pos,
    ensures
        !is_leaf(s.visits[at]),
    decreases s.visits.len() - s.pos,
{
    if s.queue.len() == 0 && s.pos < s.visits.len() {
        match s.visits[s.pos as int] {
            VisitView::EnterDirectory(name) => {
                match checked_url(joined_url(s.urls.last(), directory_segment_text(name))) {
                    Ok(url) => {
                        if at > s.pos {
                            lemma_walk_stops_at_leaves(
                                SessionView {
                                    pos: s.pos + 1,
                                    urls: s.urls.push(url),
                                    dirs: s.dirs.push(name),
                                    ..s
                                },
                                at,
                            );
                        }
                    },
                    Err(_) => {},
                }
            },
            VisitView::LeaveDirectory => {
                if at > s.pos {
                    lemma_walk_stops_at_leaves(
                        SessionView {
                            pos: s.pos + 1,
                            urls: popped(s.urls, 1),
                            dirs: popped(s.dirs, 0),
                            ..s
                        },
                        at,
                    );
                }
            },
            VisitView::CloseArchive => {
                if !s.changed && at > s.pos {
                    lemma_walk_stops_at_leaves(
                        SessionView { pos: s.pos + 1, urls: popped(s.urls, 1), ..s },
                        at,
                    );
                }
            },
            _ => {},
        }
    }
}

/// An archive comes to count as changed in one way only: the store has
/// answered for an entry, the entry is not there or differs, and its fetch
/// and its write are what is handed out next. The opening of an archive,
/// and its finalize, make it count as unchanged again.
pub proof fn lemma_change_is_a_write(s: SessionView, e: EventView)
    requires
        coherent(s),
        tidy(s),
        !s.changed,
        next(s, e).0.changed,
    ensures
        e is Entry,
        s.awaiting is Entry,
        entry_matches(s.visits[s.pos as int]->Entry_0, e->Entry_0, s.archive) == Ok::<
            bool,
            crate::error::FailureView,
        >(false),
        next(s, e).1 is Report,
        next(s, e).0.queue.len() == 2,
        next(s, e).0.queue[0] is Fetch,
        next(s, e).0.queue[1] is WriteEntry,
{
    if accepts(s, e) {
        match e {
            EventView::Failed(_) => {},
            EventView::Done => {
                lemma_dispatch_keeps_unchanged(acknowledged(s));
            },
            EventView::Local(local) => {
                let entry = s.visits[s.pos as int]->File_0;
                let url = s.awaiting->Inspection_url;
                match file_plan(
                    entry,
                    s.dirs.push(entry.name),
                    url,
                    local,
                    s.exe_name,
                    report_of(s),
                ) {
                    Ok(plan) => {
                        lemma_dispatch_keeps_unchanged(
                            SessionView {
                                queue: plan,
                                pos: s.pos + 1,
                                checked: s.checked + 1,
                                ..s
                            },
                        );
                    },
                    Err(_) => {},
                }
            },
            EventView::Entry(read) => {
                let entry = s.visits[s.pos as int]->Entry_0;
                match entry_matches(entry, read, s.archive) {
                    Err(_) => {},
                    Ok(true) => {
                        lemma_dispatch_keeps_unchanged(
                            SessionView {
                                queue: seq![report_of(s)],
                                pos: s.pos + 1,
                                checked: s.checked + 1,
                                ..s
                            },
                        );
                    },
                    Ok(false) => match checked_url(joined_url(s.urls.last(), entry.name)) {
                        Ok(url) => {
                            let plan = entry_plan(entry, url, report_of(s));
                            assert(plan.drop_first() =~= seq![plan[1], plan[2]]);
                        },
                        Err(_) => {},
                    },
                }
            },
        }
    }
}

/// Handing out the next action never makes an archive count as changed.
pub proof fn lemma_dispatch_keeps_unchanged(s: SessionView)
    requires
        !s.changed,
    ensures
        !dispatch(s).0.changed,
    decreases s.visits.len() - s.pos,
{
    if s.queue.len() == 0 && s.pos < s.visits.len() {
        match s.visits[s.pos as int] {
            VisitView::EnterDirectory(name) => {
                match checked_url(joined_url(s.urls.last(), directory_segment_text(name))) {
                    Ok(url) => {
                        lemma_dispatch_keeps_unchanged(
                            SessionView {
                                pos: s.pos + 1,
                                urls: s.urls.push(url),
                                dirs: s.dirs.push(name),
                                ..s
                            },
                        );
                    },
                    Err(_) => {},
                }
            },
            VisitView::LeaveDirectory => {
                lemma_dispatch_keeps_unchanged(
                    SessionView {
                        pos: s.pos + 1,
                        urls: popped(s.urls, 1),
                        dirs: popped(s.dirs, 0),
                        ..s
                    },
                );
            },
            VisitView::CloseArchive => {
                lemma_dispatch_keeps_unchanged(
                    SessionView { pos: s.pos + 1, urls: popped(s.urls, 1), ..s },
                );
            },
            _ => {},
        }
    }
}

/// The state before the event with the number `count`.
pub open spec fn state_before(s: SessionView, events: Seq<EventView>, count: int) -> SessionView {
    if count <= 0 {
        s
    } else {
        state_after(s, events, count - 1)
    }
}

/// A run is made of its steps: the action with the number `count` is what
/// the state before it hands out on the event with that number.
pub proof fn lemma_step_of_run(s: SessionView, events: Seq<EventView>, count: int)
    requires
        0 <= count < events.len(),
    ensures
        feed(s, events).1.len() == events.len(),
        feed(s, events).1[count] == next(state_before(s, events, count), events[count]).1,
        state_after(s, events, count) == next(state_before(s, events, count), events[count]).0,
    decreases count,
{
    lemma_feed_len(s, events);
    if count > 0 {
        let after = next(s, events[0]).0;
        let rest = events.drop_first();
        lemma_feed_rest(s, events, count);
        lemma_step_of_run(after, rest, count - 1);
        assert(rest[count - 1] == events[count]);
        if count > 1 {
            assert(state_before(after, rest, count - 1) == state_before(s, events, count));
        }
    }
}

/// Every state of a run, the first one included, is in order.
pub proof fn lemma_state_before_is_in_order(s: SessionView, events: Seq<EventView>, count: int)
    requires
        coherent(s),
        tidy(s),
        0 <= count < events.len(),
    ensures
        coherent(state_before(s, events, count)),
        tidy(state_before(s, events, count)),
{
    if count > 0 {
        lemma_states_go_forward(s, events, count - 1);
    }
}

/// A session that has ended hands out nothing but the end: in every run,
/// after a failure was handed out, nothing else is handed out.
pub proof fn lemma_abort_is_final(s: SessionView, events: Seq<EventView>, i: int, j: int)
    requires
        tidy(s),
        coherent(s),
        0 <= i <= j < events.len(),
        feed(s, events).1[i] is Abort,
    ensures
        feed(s, events).1[j] is Abort,
        state_after(s, events, j).awaiting is Over,
    decreases j - i,
{
    lemma_step_of_run(s, events, j);
    lemma_state_before_is_in_order(s, events, j);
    lemma_step_is_safe(state_before(s, events, j), events[j]);
    if i < j {
        lemma_abort_is_final(s, events, i, j - 1);
    }
}

/// The last step before the event with the number `count` at which the
/// archive came to count as changed, if it counts as changed after that
/// event and did not when the run began.
pub proof fn lemma_last_change(s: SessionView, events: Seq<EventView>, count: int) -> (at: int)
    requires
        !s.changed,
        0 <= count < events.len(),
        state_after(s, events, count).changed,
    ensures
        0 <= at <= count,
        !state_before(s, events, at).changed,
        forall|k: int| at <= k <= count ==> (#[trigger] state_after(s, events, k)).changed,
    decreases count,
{
    if !state_before(s, events, count).changed {
        count
    } else {
        let at = lemma_last_change(s, events, count - 1);
        assert forall|k: int| at <= k <= count implies (#[trigger] state_after(
            s,
            events,
            k,
        )).changed by {
            if k == count {
            }
        }
        at
    }
}

/// In every run that begins with no change to commit, whatever the events:
/// where a finalize is handed out, an entry was written into the archive
/// before, and that write was reported as done; and from that write to the
/// finalize the archive counted as changed throughout, so no other archive
/// was opened in between. No archive is finalized that was not written to.
pub proof fn lemma_finalize_follows_write(s: SessionView, events: Seq<EventView>, j: int) -> (w:
    int)
    requires
        coherent(s),
        tidy(s),
        !s.changed,
        0 <= j < events.len(),
        feed(s, events).1[j] is Finalize,
    ensures
        0 <= w,
        w + 1 <= j,
        feed(s, events).1[w] is WriteEntry,
        events[w + 1] is Done,
        forall|k: int| w <= k < j ==> (#[trigger] state_after(s, events, k)).changed,
{
    lemma_feed_len(s, events);
    // The finalize needs a change, so the archive counted as changed before it.
    lemma_step_of_run(s, events, j);
    lemma_state_before_is_in_order(s, events, j);
    lemma_step_is_safe(state_before(s, events, j), events[j]);
    assert(state_before(s, events, j).changed);
    assert(j > 0);
    let m = lemma_last_change(s, events, j - 1);
    // The step at which it came to count as changed queued a fetch and a write.
    lemma_step_of_run(s, events, m);
    lemma_state_before_is_in_order(s, events, m);
    let b0 = state_before(s, events, m);
    let s0 = state_after(s, events, m);
    lemma_change_is_a_write(b0, events[m]);
    lemma_step_is_safe(b0, events[m]);
    assert(s0.awaiting == AwaitingView::Ack(ActionKind::Report));
    // The fetch.
    assert(m + 1 < j) by {
        if m + 1 == j {
            assert(state_before(s, events, j) == s0);
        }
    }
    lemma_step_of_run(s, events, m + 1);
    lemma_state_before_is_in_order(s, events, m + 1);
    assert(state_before(s, events, m + 1) == s0);
    lemma_step_is_safe(s0, events[m + 1]);
    if !(events[m + 1] is Done) {
        lemma_abort_is_final(s, events, m + 1, j);
    }
    let s1 = state_after(s, events, m + 1);
    assert(feed(s, events).1[m + 1] == s0.queue[0]);
    assert(s1.queue == s0.queue.drop_first());
    assert(s1.queue.len() == 1);
    assert(s1.queue[0] == s0.queue[1]);
    assert(s1.awaiting == AwaitingView::Ack(ActionKind::Fetch));
    // The write.
    assert(m + 2 < j) by {
        if m + 2 == j {
            assert(state_before(s, events, j) == s1);
        }
    }
    lemma_step_of_run(s, events, m + 2);
    lemma_state_before_is_in_order(s, events, m + 2);
    assert(state_before(s, events, m + 2) == s1);
    lemma_step_is_safe(s1, events[m + 2]);
    if !(events[m + 2] is Done) {
        lemma_abort_is_final(s, events, m + 2, j);
    }
    let s2 = state_after(s, events, m + 2);
    assert(feed(s, events).1[m + 2] == s1.queue[0]);
    assert(feed(s, events).1[m + 2] is WriteEntry);
    assert(s2.awaiting == AwaitingView::Ack(ActionKind::WriteEntry));
    // The news of the write.
    lemma_step_of_run(s, events, m + 3);
    lemma_state_before_is_in_order(s, events, m + 3);
    assert(state_before(s, events, m + 3) == s2);
    lemma_step_is_safe(s2, events[m + 3]);
    if !(events[m + 3] is Done) {
        lemma_abort_is_final(s, events, m + 3, j);
    }
    m + 2
}

/// A session starts in order: it has nothing queued, nothing to commit, and
/// it has checked nothing. So everything that is shown here of every run
/// holds of every run of a session from its start.
pub proof fn lemma_start_is_in_order(
    directory: DirectoryView,
    platform_url: Seq<char>,
    exe_name: Option<Seq<char>>,
)
    requires
        leaf_count_among(directory.children, directory.children.len()) <= usize::MAX,
    ensures
        coherent(initial(directory, platform_url, exe_name)),
        tidy(initial(directory, platform_url, exe_name)),
        !initial(directory, platform_url, exe_name).changed,
        initial(directory, platform_url, exe_name).pending is None,
{
    lemma_initial_is_coherent(directory, platform_url, exe_name);
}

/// In every run, whatever the events: where something is written, to a
/// file or into an archive, the action handed out just before it is a
/// fetch, and the event that brought the write is the news that the fetch
/// is done. So nothing is written that was not fetched, and a fetch that
/// fails is followed by no write: it is followed by the end of the session.
pub proof fn lemma_write_follows_fetch(s: SessionView, events: Seq<EventView>, i: int)
    requires
        coherent(s),
        tidy(s),
        0 <= i < events.len(),
        is_write(feed(s, events).1[i]),
    ensures
        events[i] is Done,
        i > 0 ==> feed(s, events).1[i - 1] is Fetch,
        i == 0 ==> s.awaiting == AwaitingView::Ack(ActionKind::Fetch),
{
    lemma_step_of_run(s, events, i);
    lemma_state_before_is_in_order(s, events, i);
    lemma_step_is_safe(state_before(s, events, i), events[i]);
    if i > 0 {
        lemma_step_of_run(s, events, i - 1);
        lemma_state_before_is_in_order(s, events, i - 1);
        lemma_step_is_safe(state_before(s, events, i - 1), events[i - 1]);
    }
}

/// In every run, whatever the events: what follows a fetch that is not
/// reported as done is the end of the session, and the end is all that
/// follows. Nothing is written after a fetch that failed.
pub proof fn lemma_failed_fetch_writes_nothing(
    s: SessionView,
    events: Seq<EventView>,
    i: int,
    j: int,
)
    requires
        coherent(s),
        tidy(s),
        0 <= i < j < events.len(),
        feed(s, events).1[i] is Fetch,
        !(events[i + 1] is Done),
    ensures
        feed(s, events).1[j] is Abort,
        state_after(s, events, j).pending == state_after(s, events, i).pending,
    decreases j - i,
{
    lemma_step_of_run(s, events, i);
    lemma_state_before_is_in_order(s, events, i);
    lemma_step_is_safe(state_before(s, events, i), events[i]);
    let fetching = state_after(s, events, i);
    assert(fetching.awaiting == AwaitingView::Ack(ActionKind::Fetch));
    lemma_states_go_forward(s, events, i);
    lemma_step_of_run(s, events, i + 1);
    assert(state_before(s, events, i + 1) == fetching);
    lemma_step_is_safe(fetching, events[i + 1]);
    lemma_abort_is_final(s, events, i + 1, j);
    if j == i + 1 {
        lemma_pending_is_recorded_last(fetching, events[i + 1]);
    } else {
        lemma_failed_fetch_writes_nothing(s, events, i, j - 1);
        lemma_abort_is_final(s, events, i + 1, j - 1);
        lemma_step_of_run(s, events, j);
        assert(state_before(s, events, j) == state_after(s, events, j - 1));
        lemma_pending_is_recorded_last(state_after(s, events, j - 1), events[j]);
    }
}

} // verus!
