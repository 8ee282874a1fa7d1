//! Whole runs of a session: what is handed out, in order, when the outcomes
//! of the actions arrive one after the other.

use vstd::prelude::*;
use vstd::string::*;
use crate::manifest::{
    archive_entries_among, file_leaves_among, leaf_count, leaf_count_among, DirectoryView,
    EntryView, NodeView,
};
use crate::message::Fraction;
use crate::sync::{
    accepts, coherent, count_of, dispatch, entry_matches, entry_plan, file_plan, initial, is_self,
    kind_of, lemma_file_plan_transfers, next, acknowledged, popped, progress_text, report_of,
    summary_of, summary_text, up_to_date, ActionKind, ActionView, AwaitingView, EntryReadView,
    EventView, LocalFileView, SessionView, TargetView,
};
use crate::traversal::{
    archive_at, archives_whole, lemma_leaf_visits_monotonic, lemma_walk_archives_whole,
    lemma_walk_counts_leaves_among, visits_among, VisitView,
};
use crate::urls::{archive_segment_text, checked_url, directory_segment_text, joined_url};

verus! {

/// The state after the events have arrived in this order, and the actions
/// that were handed out, one for each event.
pub open spec fn feed(s: SessionView, events: Seq<EventView>) -> (SessionView, Seq<ActionView>)
    decreases events.len(),
{
    if events.len() == 0 {
        (s, Seq::empty())
    } else {
        let (after, action) = next(s, events[0]);
        let (last, rest) = feed(after, events.drop_first());
        (last, seq![action] + rest)
    }
}

/// True if each of the events, in this order, is one that the session can
/// take when it arrives.
pub open spec fn admissible(s: SessionView, events: Seq<EventView>) -> bool
    decreases events.len(),
{
    events.len() == 0 || (accepts(s, events[0]) && admissible(
        next(s, events[0]).0,
        events.drop_first(),
    ))
}

/// `count` times the news that the action was done.
pub open spec fn dones(count: nat) -> Seq<EventView> {
    Seq::new(count, |i: int| EventView::Done)
}

/// Events that arrive one after the other can be taken in two parts.
pub proof fn lemma_feed_concat(s: SessionView, first: Seq<EventView>, second: Seq<EventView>)
    ensures
        feed(s, first + second).0 == feed(feed(s, first).0, second).0,
        feed(s, first + second).1 == feed(s, first).1 + feed(feed(s, first).0, second).1,
        admissible(s, first + second) == (admissible(s, first) && admissible(
            feed(s, first).0,
            second,
        )),
    decreases first.len(),
{
    if first.len() == 0 {
        assert(first + second =~= second);
        assert(feed(s, first).1 + feed(feed(s, first).0, second).1 =~= feed(s, second).1);
    } else {
        let all = first + second;
        assert(all[0] == first[0]);
        assert(all.drop_first() =~= first.drop_first() + second);
        let after = next(s, first[0]).0;
        lemma_feed_concat(after, first.drop_first(), second);
        assert(feed(s, all).1 =~= feed(s, first).1 + feed(feed(s, first).0, second).1);
    }
}

/// One event gives one action.
pub proof fn lemma_feed_one(s: SessionView, e: EventView)
    ensures
        feed(s, seq![e]).0 == next(s, e).0,
        feed(s, seq![e]).1 == seq![next(s, e).1],
        admissible(s, seq![e]) == accepts(s, e),
{
    let events = seq![e];
    reveal_with_fuel(feed, 2);
    reveal_with_fuel(admissible, 2);
    assert(events.drop_first() =~= Seq::<EventView>::empty());
    assert(feed(s, events).1 =~= seq![next(s, e).1]);
}

/// Counting on a prefix does not depend on what follows the prefix.
pub proof fn lemma_count_prefix(a: Seq<ActionView>, b: Seq<ActionView>, kind: ActionKind, upto: nat)
    requires
        upto <= a.len(),
    ensures
        count_of(a + b, kind, upto) == count_of(a, kind, upto),
    decreases upto,
{
    if upto > 0 {
        lemma_count_prefix(a, b, kind, (upto - 1) as nat);
        assert((a + b)[upto - 1] == a[upto - 1]);
    }
}

/// The count in two runs, one after the other, is the sum of the counts.
pub proof fn lemma_count_concat(a: Seq<ActionView>, b: Seq<ActionView>, kind: ActionKind, upto: nat)
    requires
        upto <= b.len(),
    ensures
        count_of(a + b, kind, a.len() + upto) == count_of(a, kind, a.len()) + count_of(
            b,
            kind,
            upto,
        ),
    decreases upto,
{
    if upto == 0 {
        lemma_count_prefix(a, b, kind, a.len());
    } else {
        lemma_count_concat(a, b, kind, (upto - 1) as nat);
        assert((a + b)[a.len() + upto - 1] == b[upto - 1]);
    }
}

/// Where no action is of a kind, the count of that kind is zero.
pub proof fn lemma_count_none(a: Seq<ActionView>, kind: ActionKind, upto: nat)
    requires
        upto <= a.len(),
        forall|i: int| 0 <= i < a.len() ==> kind_of(#[trigger] a[i]) != kind,
    ensures
        count_of(a, kind, upto) == 0,
    decreases upto,
{
    if upto > 0 {
        lemma_count_none(a, kind, (upto - 1) as nat);
    }
}

/// True if the session has nothing queued and waits for nothing but the
/// news that it may go on: it has not started, or its last action asked for
/// no answer.
pub open spec fn at_rest(s: SessionView) -> bool {
    s.queue.len() == 0 && (s.awaiting is Ack || s.awaiting is Start)
}

/// True for the actions that a plan is made of: they are done or they fail,
/// and they ask for no answer.
pub open spec fn is_plain(action: ActionView) -> bool {
    action is Report || action is Fetch || action is WriteFile || action is MarkExecutable
        || action is WriteEntry || action is Defrag
}

/// The state in which nothing is queued and the action of this kind was
/// handed out last.
pub open spec fn drained(s: SessionView, last: ActionKind) -> SessionView {
    SessionView { queue: Seq::empty(), awaiting: AwaitingView::Ack(last), ..s }
}

/// What is decided is handed out in order, one action for each action that
/// is reported as done, and nothing else comes in between. Where nothing is
/// made executable but at the very end, the record of the pending
/// replacement stays as it is meanwhile.
pub proof fn lemma_queue_is_handed_out(s: SessionView)
    requires
        s.queue.len() > 0,
        s.awaiting is Ack,
        s.awaiting != AwaitingView::Ack(ActionKind::MarkExecutable),
        forall|i: int| 0 <= i < s.queue.len() ==> is_plain(#[trigger] s.queue[i]),
        forall|i: int| 0 <= i < s.queue.len() - 1 ==> !(#[trigger] s.queue[i] is MarkExecutable),
    ensures
        feed(s, dones(s.queue.len())).1 == s.queue,
        feed(s, dones(s.queue.len())).0 == drained(s, kind_of(s.queue.last())),
        admissible(s, dones(s.queue.len())),
    decreases s.queue.len(),
{
    let events = dones(s.queue.len());
    reveal_with_fuel(feed, 2);
    reveal_with_fuel(admissible, 2);
    let (after, action) = next(s, events[0]);
    assert(action == s.queue[0]);
    assert(accepts(s, events[0]));
    assert(events.drop_first() =~= dones((s.queue.len() - 1) as nat));
    if s.queue.len() == 1 {
        assert(after.queue =~= Seq::<ActionView>::empty());
        assert(feed(after, events.drop_first()).1 =~= Seq::<ActionView>::empty());
        assert(feed(s, events).1 =~= s.queue);
        assert(after =~= drained(s, kind_of(s.queue.last())));
    } else {
        assert(after.queue == s.queue.drop_first());
        assert forall|i: int| 0 <= i < after.queue.len() implies is_plain(
            #[trigger] after.queue[i],
        ) by {
            assert(after.queue[i] == s.queue[i + 1]);
        }
        assert forall|i: int| 0 <= i < after.queue.len() - 1 implies !(#[trigger] after.queue[i]
            is MarkExecutable) by {
            assert(after.queue[i] == s.queue[i + 1]);
        }
        assert(!(s.queue[0] is MarkExecutable));
        lemma_queue_is_handed_out(after);
        assert(after.queue.last() == s.queue.last());
        assert(feed(s, events).1 =~= s.queue);
        assert(drained(after, kind_of(after.queue.last())) =~= drained(
            s,
            kind_of(s.queue.last()),
        ));
    }
}

/// The events that a tracked file takes: the walk goes on, the caller says
/// what is there, and each action of the plan but the last is done. (The
/// news that the last one is done belongs to what comes next.)
pub open spec fn file_events(local: LocalFileView, plan: Seq<ActionView>) -> Seq<EventView> {
    seq![EventView::Done, EventView::Local(local)] + dones((plan.len() - 1) as nat)
}

/// What is done about a tracked file, from the moment the walk reaches it:
/// the file is inspected, and then comes its plan and nothing else. So a
/// file that is up to date is inspected and reported, and not fetched; a
/// file that is absent or differs is inspected, reported, fetched once and
/// written once. Afterwards the walk stands behind the file, with one more
/// file checked and nothing left to hand out.
pub proof fn lemma_file_run(s: SessionView, local: LocalFileView)
    requires
        coherent(s),
        at_rest(s),
        s.pos < s.visits.len(),
        s.visits[s.pos as int] is File,
        joined_url(s.urls.last(), s.visits[s.pos as int]->File_0.name) is Ok,
        file_plan(
            s.visits[s.pos as int]->File_0,
            s.dirs.push(s.visits[s.pos as int]->File_0.name),
            joined_url(s.urls.last(), s.visits[s.pos as int]->File_0.name)->Ok_0,
            local,
            s.exe_name,
            report_of(s),
        ) is Ok,
    ensures
        ({
            let entry = s.visits[s.pos as int]->File_0;
            let path = s.dirs.push(entry.name);
            let url = joined_url(s.urls.last(), entry.name)->Ok_0;
            let plan = file_plan(entry, path, url, local, s.exe_name, report_of(s))->Ok_0;
            let (after, actions) = feed(s, file_events(local, plan));
            &&& admissible(s, file_events(local, plan))
            &&& actions == seq![ActionView::InspectFile { path }] + plan
            &&& after == drained(
                SessionView { pos: s.pos + 1, checked: s.checked + 1, ..acknowledged(s) },
                kind_of(plan.last()),
            )
            &&& coherent(after)
            &&& at_rest(after)
        }),
{
    let entry = s.visits[s.pos as int]->File_0;
    let path = s.dirs.push(entry.name);
    let url = joined_url(s.urls.last(), entry.name)->Ok_0;
    let plan = file_plan(entry, path, url, local, s.exe_name, report_of(s))->Ok_0;
    let asked = next(s, EventView::Done).0;
    assert(next(s, EventView::Done).1 == ActionView::InspectFile { path });
    let decided = SessionView {
        queue: plan,
        pos: s.pos + 1,
        checked: s.checked + 1,
        ..asked
    };
    assert(plan.len() >= 1 && plan[0] == report_of(s));
    let told = next(asked, EventView::Local(local)).0;
    assert(next(asked, EventView::Local(local)) == dispatch(decided));
    assert(next(asked, EventView::Local(local)).1 == plan[0]);
    lemma_leaf_visits_monotonic(s.visits, s.pos + 1, s.visits.len());
    let head = seq![EventView::Done, EventView::Local(local)];
    let tail = dones((plan.len() - 1) as nat);
    lemma_feed_one(s, EventView::Done);
    lemma_feed_one(asked, EventView::Local(local));
    assert(head =~= seq![EventView::Done] + seq![EventView::Local(local)]);
    lemma_feed_concat(s, seq![EventView::Done], seq![EventView::Local(local)]);
    assert(feed(s, head).0 == told);
    assert(feed(s, head).1 =~= seq![ActionView::InspectFile { path }, plan[0]]);
    lemma_feed_concat(s, head, tail);
    let finished = SessionView { pos: s.pos + 1, checked: s.checked + 1, ..acknowledged(s) };
    if plan.len() == 1 {
        assert(tail =~= Seq::<EventView>::empty());
        assert(told.queue =~= Seq::<ActionView>::empty());
        assert(told =~= drained(finished, kind_of(plan.last())));
        assert(feed(told, tail).1 =~= Seq::<ActionView>::empty());
        assert(feed(s, file_events(local, plan)).1 =~= seq![ActionView::InspectFile { path }]
            + plan);
    } else {
        assert(told.queue == plan.drop_first());
        assert forall|i: int| 0 <= i < told.queue.len() implies is_plain(
            #[trigger] told.queue[i],
        ) by {
            assert(told.queue[i] == plan[i + 1]);
        }
        lemma_queue_is_handed_out(told);
        assert(told.queue.last() == plan.last());
        assert(drained(told, kind_of(plan.last())) =~= drained(finished, kind_of(plan.last())));
        assert(feed(s, file_events(local, plan)).1 =~= seq![ActionView::InspectFile { path }]
            + plan);
    }
}

/// A local file whose digest is the one in the manifest causes no fetch and
/// no write; a file that is absent, or whose digest differs, causes exactly
/// one fetch and exactly one write. This holds of everything that is handed
/// out about the file, from the moment the walk reaches it until the walk
/// goes on behind it.
pub proof fn lemma_file_run_transfers(s: SessionView, local: LocalFileView)
    requires
        coherent(s),
        at_rest(s),
        s.pos < s.visits.len(),
        s.visits[s.pos as int] is File,
        joined_url(s.urls.last(), s.visits[s.pos as int]->File_0.name) is Ok,
        file_plan(
            s.visits[s.pos as int]->File_0,
            s.dirs.push(s.visits[s.pos as int]->File_0.name),
            joined_url(s.urls.last(), s.visits[s.pos as int]->File_0.name)->Ok_0,
            local,
            s.exe_name,
            report_of(s),
        ) is Ok,
    ensures
        ({
            let entry = s.visits[s.pos as int]->File_0;
            let url = joined_url(s.urls.last(), entry.name)->Ok_0;
            let plan = file_plan(
                entry,
                s.dirs.push(entry.name),
                url,
                local,
                s.exe_name,
                report_of(s),
            )->Ok_0;
            let actions = feed(s, file_events(local, plan)).1;
            let transfers: nat = if up_to_date(entry, local) {
                0
            } else {
                1
            };
            &&& count_of(actions, ActionKind::Fetch, actions.len()) == transfers
            &&& count_of(actions, ActionKind::WriteFile, actions.len()) == transfers
            &&& count_of(actions, ActionKind::Report, actions.len()) == 1
            &&& count_of(actions, ActionKind::InspectFile, actions.len()) == 1
        }),
{
    let entry = s.visits[s.pos as int]->File_0;
    let path = s.dirs.push(entry.name);
    let url = joined_url(s.urls.last(), entry.name)->Ok_0;
    let plan = file_plan(entry, path, url, local, s.exe_name, report_of(s))->Ok_0;
    let first = seq![ActionView::InspectFile { path }];
    lemma_file_run(s, local);
    lemma_file_plan_transfers(entry, path, url, local, s.exe_name, report_of(s));
    reveal_with_fuel(count_of, 5);
    lemma_count_concat(first, plan, ActionKind::Fetch, plan.len());
    lemma_count_concat(first, plan, ActionKind::WriteFile, plan.len());
    lemma_count_concat(first, plan, ActionKind::Report, plan.len());
    lemma_count_concat(first, plan, ActionKind::InspectFile, plan.len());
    if up_to_date(entry, local) {
        assert(plan.len() == 1);
    } else if is_self(local) {
        assert(plan.len() == 4);
    } else {
        assert(plan.len() == 3);
    }
}

/// True if the entry, as it was read, is not what the manifest asks for:
/// it is not there, or its digest differs.
pub open spec fn differs(entry: EntryView, read: EntryReadView) -> bool {
    !(read matches EntryReadView::Found { digest } && digest == entry.digest)
}

/// What is done about the entry that the walk stands in front of, once it
/// is read: the report, and for an entry that differs, one fetch and one
/// write.
pub open spec fn entry_actions(s: SessionView, read: EntryReadView) -> Seq<ActionView> {
    let entry = s.visits[s.pos as int]->Entry_0;
    if differs(entry, read) {
        entry_plan(entry, joined_url(s.urls.last(), entry.name)->Ok_0, report_of(s))
    } else {
        seq![report_of(s)]
    }
}

/// The events that an entry takes: the walk goes on, the store answers, and
/// each action about the entry but the last is done.
pub open spec fn entry_events(s: SessionView, read: EntryReadView) -> Seq<EventView> {
    seq![EventView::Done, EventView::Entry(read)] + dones(
        (entry_actions(s, read).len() - 1) as nat,
    )
}

/// The state behind the entry that the walk stands in front of: one more
/// file is checked, and the archive counts as changed if it did before or
/// if the entry differs.
pub open spec fn entry_end(s: SessionView, read: EntryReadView) -> SessionView {
    let entry = s.visits[s.pos as int]->Entry_0;
    drained(
        SessionView {
            pos: s.pos + 1,
            checked: s.checked + 1,
            changed: s.changed || differs(entry, read),
            ..acknowledged(s)
        },
        kind_of(entry_actions(s, read).last()),
    )
}

/// What holds of a session that stands in front of an entry whose reading
/// will go well: the store answers, and the URL of an entry that differs
/// can be made.
pub open spec fn entry_ready(s: SessionView, read: EntryReadView) -> bool {
    &&& coherent(s)
    &&& at_rest(s)
    &&& s.pos < s.visits.len()
    &&& s.visits[s.pos as int] is Entry
    &&& !(read is Other)
    &&& differs(s.visits[s.pos as int]->Entry_0, read) ==> joined_url(
        s.urls.last(),
        s.visits[s.pos as int]->Entry_0.name,
    ) is Ok
}

/// What is done about an entry of an archive, from the moment the walk
/// reaches it: the entry is read, and then it is reported, and fetched once
/// and written once if it differs, and neither if it does not.
pub proof fn lemma_entry_run(s: SessionView, read: EntryReadView)
    requires
        entry_ready(s, read),
    ensures
        admissible(s, entry_events(s, read)),
        feed(s, entry_events(s, read)).0 == entry_end(s, read),
        feed(s, entry_events(s, read)).1 == seq![
            ActionView::ReadEntry { name: s.visits[s.pos as int]->Entry_0.name },
        ] + entry_actions(s, read),
        coherent(entry_end(s, read)),
        at_rest(entry_end(s, read)),
{
    let entry = s.visits[s.pos as int]->Entry_0;
    let plan = entry_actions(s, read);
    let reading = ActionView::ReadEntry { name: entry.name };
    let asked = next(s, EventView::Done).0;
    assert(next(s, EventView::Done).1 == reading);
    assert(entry_matches(entry, read, s.archive) == Ok::<bool, crate::error::FailureView>(
        !differs(entry, read),
    ));
    let decided = SessionView {
        queue: plan,
        pos: s.pos + 1,
        checked: s.checked + 1,
        changed: s.changed || differs(entry, read),
        ..asked
    };
    assert(plan.len() >= 1 && plan[0] == report_of(s));
    let told = next(asked, EventView::Entry(read)).0;
    assert(next(asked, EventView::Entry(read)) == dispatch(decided));
    lemma_leaf_visits_monotonic(s.visits, s.pos + 1, s.visits.len());
    let head = seq![EventView::Done, EventView::Entry(read)];
    let tail = dones((plan.len() - 1) as nat);
    lemma_feed_one(s, EventView::Done);
    lemma_feed_one(asked, EventView::Entry(read));
    assert(head =~= seq![EventView::Done] + seq![EventView::Entry(read)]);
    lemma_feed_concat(s, seq![EventView::Done], seq![EventView::Entry(read)]);
    assert(feed(s, head).1 =~= seq![reading, plan[0]]);
    lemma_feed_concat(s, head, tail);
    let finished = SessionView {
        pos: s.pos + 1,
        checked: s.checked + 1,
        changed: s.changed || differs(entry, read),
        ..acknowledged(s)
    };
    if plan.len() == 1 {
        assert(tail =~= Seq::<EventView>::empty());
        assert(told.queue =~= Seq::<ActionView>::empty());
        assert(told =~= drained(finished, kind_of(plan.last())));
        assert(feed(told, tail).1 =~= Seq::<ActionView>::empty());
        assert(feed(s, entry_events(s, read)).1 =~= seq![reading] + plan);
    } else {
        assert(told.queue == plan.drop_first());
        assert forall|i: int| 0 <= i < told.queue.len() implies is_plain(
            #[trigger] told.queue[i],
        ) by {
            assert(told.queue[i] == plan[i + 1]);
        }
        lemma_queue_is_handed_out(told);
        assert(told.queue.last() == plan.last());
        assert(drained(told, kind_of(plan.last())) =~= drained(finished, kind_of(plan.last())));
        assert(feed(s, entry_events(s, read)).1 =~= seq![reading] + plan);
    }
}

/// The state behind the first `upto` entries that the walk stands in front of.
pub open spec fn entries_end(s: SessionView, reads: Seq<EntryReadView>, upto: nat) -> SessionView
    decreases upto,
{
    if upto == 0 || upto > reads.len() {
        s
    } else {
        entry_end(entries_end(s, reads, (upto - 1) as nat), reads[upto - 1])
    }
}

/// The events that the first `upto` entries take.
pub open spec fn entries_events(s: SessionView, reads: Seq<EntryReadView>, upto: nat) -> Seq<
    EventView,
>
    decreases upto,
{
    if upto == 0 || upto > reads.len() {
        Seq::empty()
    } else {
        entries_events(s, reads, (upto - 1) as nat) + entry_events(
            entries_end(s, reads, (upto - 1) as nat),
            reads[upto - 1],
        )
    }
}

/// What is done about the first `upto` entries: each is read, reported,
/// and fetched and written if it differs.
pub open spec fn entries_actions(s: SessionView, reads: Seq<EntryReadView>, upto: nat) -> Seq<
    ActionView,
>
    decreases upto,
{
    if upto == 0 || upto > reads.len() {
        Seq::empty()
    } else {
        let before = entries_end(s, reads, (upto - 1) as nat);
        entries_actions(s, reads, (upto - 1) as nat) + seq![
            ActionView::ReadEntry { name: before.visits[before.pos as int]->Entry_0.name },
        ] + entry_actions(before, reads[upto - 1])
    }
}

/// True if one of the first `upto` entries differs from what was read.
pub open spec fn any_differs(s: SessionView, reads: Seq<EntryReadView>, upto: nat) -> bool
    decreases upto,
{
    if upto == 0 || upto > reads.len() {
        false
    } else {
        any_differs(s, reads, (upto - 1) as nat) || differs(
            s.visits[s.pos + upto - 1]->Entry_0,
            reads[upto - 1],
        )
    }
}

/// One of the entries differs if, and only if, there is one that differs.
pub proof fn lemma_any_differs(s: SessionView, reads: Seq<EntryReadView>, upto: nat)
    requires
        upto <= reads.len(),
    ensures
        any_differs(s, reads, upto) <==> exists|i: int|
            0 <= i < upto && differs(#[trigger] s.visits[s.pos + i]->Entry_0, reads[i]),
    decreases upto,
{
    if upto > 0 {
        lemma_any_differs(s, reads, (upto - 1) as nat);
        if any_differs(s, reads, upto) {
            if differs(s.visits[s.pos + upto - 1]->Entry_0, reads[upto - 1]) {
                let i = (upto - 1) as int;
                assert(0 <= i < upto && differs(s.visits[s.pos + i]->Entry_0, reads[i]));
            } else {
                let i = choose|i: int|
                    0 <= i < upto - 1 && differs(#[trigger] s.visits[s.pos + i]->Entry_0, reads[i]);
                assert(0 <= i < upto && differs(s.visits[s.pos + i]->Entry_0, reads[i]));
            }
        }
    }
}

/// What holds of a session that stands in front of `upto` entries whose
/// reading will go well.
pub open spec fn entries_ready(s: SessionView, reads: Seq<EntryReadView>, upto: nat) -> bool {
    &&& coherent(s)
    &&& at_rest(s)
    &&& upto <= reads.len()
    &&& s.pos + upto <= s.visits.len()
    &&& forall|i: int|
        0 <= i < upto ==> {
            &&& (#[trigger] s.visits[s.pos + i]) is Entry
            &&& !(reads[i] is Other)
            &&& differs(s.visits[s.pos + i]->Entry_0, reads[i]) ==> joined_url(
                s.urls.last(),
                s.visits[s.pos + i]->Entry_0.name,
            ) is Ok
        }
}

/// What is done about the entries of an archive, one after the other: each
/// is read and reported, those that differ are fetched and written, and
/// nothing else is handed out. Afterwards the walk stands behind the
/// entries, and the archive counts as changed if it did before, or if one
/// of the entries differs.
pub proof fn lemma_entries_run(s: SessionView, reads: Seq<EntryReadView>, upto: nat)
    requires
        entries_ready(s, reads, upto),
    ensures
        admissible(s, entries_events(s, reads, upto)),
        feed(s, entries_events(s, reads, upto)).0 == entries_end(s, reads, upto),
        feed(s, entries_events(s, reads, upto)).1 == entries_actions(s, reads, upto),
        ({
            let end = entries_end(s, reads, upto);
            &&& coherent(end)
            &&& at_rest(end)
            &&& end.pos == s.pos + upto
            &&& end.checked == s.checked + upto
            &&& end.changed == (s.changed || any_differs(s, reads, upto))
            &&& end.visits == s.visits
            &&& end.urls == s.urls
            &&& end.dirs == s.dirs
            &&& end.archive == s.archive
            &&& end.exe_name == s.exe_name
            &&& end.pending == if upto == 0 {
                s.pending
            } else {
                acknowledged(s).pending
            }
        }),
    decreases upto,
{
    if upto == 0 {
        assert(feed(s, entries_events(s, reads, upto)).1 =~= entries_actions(s, reads, upto));
    } else {
        let fewer = (upto - 1) as nat;
        assert(entries_ready(s, reads, fewer)) by {
            assert forall|i: int| 0 <= i < fewer implies {
                &&& (#[trigger] s.visits[s.pos + i]) is Entry
                &&& !(reads[i] is Other)
                &&& differs(s.visits[s.pos + i]->Entry_0, reads[i]) ==> joined_url(
                    s.urls.last(),
                    s.visits[s.pos + i]->Entry_0.name,
                ) is Ok
            } by {
                assert(0 <= i < upto);
            }
        }
        lemma_entries_run(s, reads, fewer);
        let before = entries_end(s, reads, fewer);
        let read = reads[upto - 1];
        assert(s.visits[(s.pos + fewer) as int] is Entry);
        assert(before.visits[before.pos as int] == s.visits[(s.pos + fewer) as int]);
        assert(entry_ready(before, read));
        lemma_entry_run(before, read);
        lemma_feed_concat(s, entries_events(s, reads, fewer), entry_events(before, read));
        assert(feed(s, entries_events(s, reads, upto)).1 =~= entries_actions(s, reads, upto));
    }
}

/// Nothing that is done about an entry is a finalize or a defrag.
pub proof fn lemma_entries_leave_archive_open(s: SessionView, reads: Seq<EntryReadView>, upto: nat)
    requires
        upto <= reads.len(),
    ensures
        forall|i: int|
            0 <= i < entries_actions(s, reads, upto).len() ==> {
                &&& !(#[trigger] entries_actions(s, reads, upto)[i] is Finalize)
                &&& !(entries_actions(s, reads, upto)[i] is Defrag)
                &&& !(entries_actions(s, reads, upto)[i] is OpenArchive)
            },
    decreases upto,
{
    if upto > 0 {
        lemma_entries_leave_archive_open(s, reads, (upto - 1) as nat);
    }
}

/// The state in which the archive that the walk stands in front of is open.
pub open spec fn opened(s: SessionView) -> SessionView {
    next(s, EventView::Done).0
}

/// What holds of a session that stands in front of an archive whose update
/// will go well: the archive has as many entries as there are readings,
/// the store answers each, and the URLs that are needed can be made.
pub open spec fn archive_ready(s: SessionView, reads: Seq<EntryReadView>) -> bool {
    &&& coherent(s)
    &&& at_rest(s)
    &&& archive_at(s.visits, s.pos as int, reads.len())
    &&& joined_url(
        s.urls.last(),
        archive_segment_text(s.visits[s.pos as int]->OpenArchive_0),
    ) matches Ok(url)
    &&& forall|i: int|
        0 <= i < reads.len() ==> {
            &&& !((#[trigger] reads[i]) is Other)
            &&& differs(s.visits[s.pos + 1 + i]->Entry_0, reads[i]) ==> joined_url(
                url,
                s.visits[s.pos + 1 + i]->Entry_0.name,
            ) is Ok
        }
}

/// True if one of the entries of the archive differs from what was read.
pub open spec fn archive_changes(s: SessionView, reads: Seq<EntryReadView>) -> bool {
    any_differs(opened(s), reads, reads.len())
}

/// The events that an archive takes: it is opened; its entries are dealt
/// with; and if one of them has changed, the finalize is done and the
/// defrag is handed out.
pub open spec fn archive_events(s: SessionView, reads: Seq<EntryReadView>) -> Seq<EventView> {
    seq![EventView::Done] + entries_events(opened(s), reads, reads.len()) + if archive_changes(
        s,
        reads,
    ) {
        seq![EventView::Done, EventView::Done]
    } else {
        Seq::empty()
    }
}

/// What is done about an archive: it is opened, its entries are dealt with
/// one after the other, and if one of them has changed it is finalized and
/// then defragmented.
pub open spec fn archive_actions(s: SessionView, reads: Seq<EntryReadView>) -> Seq<ActionView> {
    seq![
        ActionView::OpenArchive {
            directory: s.dirs,
            name: s.visits[s.pos as int]->OpenArchive_0,
        },
    ] + entries_actions(opened(s), reads, reads.len()) + if archive_changes(s, reads) {
        seq![ActionView::Finalize, ActionView::Defrag]
    } else {
        Seq::empty()
    }
}

/// The update of an archive, from the moment the walk reaches it. The
/// archive is opened, and each entry is read, reported, and fetched and
/// written if it differs. If, and only if, at least one entry differs, the
/// archive is then finalized once and defragmented once, in this order, and
/// these are the last two things that are done about it. Otherwise it is
/// neither finalized nor defragmented, and the walk goes on behind it.
pub proof fn lemma_archive_run(s: SessionView, reads: Seq<EntryReadView>)
    requires
        archive_ready(s, reads),
    ensures
        admissible(s, archive_events(s, reads)),
        feed(s, archive_events(s, reads)).1 == archive_actions(s, reads),
        archive_changes(s, reads) <==> exists|i: int|
            0 <= i < reads.len() && differs(#[trigger] s.visits[s.pos + 1 + i]->Entry_0, reads[i]),
        ({
            let actions = archive_actions(s, reads);
            let end = feed(s, archive_events(s, reads)).0;
            &&& count_of(actions, ActionKind::OpenArchive, actions.len()) == 1
            &&& archive_changes(s, reads) ==> {
                &&& count_of(actions, ActionKind::Finalize, actions.len()) == 1
                &&& count_of(actions, ActionKind::Defrag, actions.len()) == 1
                &&& actions[actions.len() - 2] == ActionView::Finalize
                &&& actions[actions.len() - 1] == ActionView::Defrag
                &&& end.pos == s.pos + reads.len() + 2
                &&& end.urls == s.urls
            }
            &&& !archive_changes(s, reads) ==> {
                &&& count_of(actions, ActionKind::Finalize, actions.len()) == 0
                &&& count_of(actions, ActionKind::Defrag, actions.len()) == 0
                &&& end.pos == s.pos + reads.len() + 1
                &&& next(end, EventView::Done) == dispatch(
                    SessionView { pos: end.pos + 1, urls: s.urls, ..end },
                )
            }
            &&& at_rest(end)
            &&& end.checked == s.checked + reads.len()
            &&& coherent(end)
        }),
{
    let count = reads.len();
    let name = s.visits[s.pos as int]->OpenArchive_0;
    let url = joined_url(s.urls.last(), archive_segment_text(name))->Ok_0;
    let open = opened(s);
    let opening = ActionView::OpenArchive { directory: s.dirs, name };
    assert(next(s, EventView::Done).1 == opening);
    assert(open.urls == s.urls.push(url));
    assert(open.urls.last() == url);
    lemma_leaf_visits_monotonic(s.visits, s.pos + 1, s.visits.len());
    assert(entries_ready(open, reads, count)) by {
        assert forall|i: int| 0 <= i < count implies {
            &&& (#[trigger] open.visits[open.pos + i]) is Entry
            &&& !(reads[i] is Other)
            &&& differs(open.visits[open.pos + i]->Entry_0, reads[i]) ==> joined_url(
                open.urls.last(),
                open.visits[open.pos + i]->Entry_0.name,
            ) is Ok
        } by {
            assert(open.visits[open.pos + i] == s.visits[s.pos + 1 + i]);
            assert(s.visits[s.pos + 1 + i] is Entry);
            assert(!(reads[i] is Other));
        }
    }
    lemma_entries_run(open, reads, count);
    lemma_entries_leave_archive_open(open, reads, count);
    lemma_any_differs(open, reads, count);
    assert(archive_changes(s, reads) <==> exists|i: int|
        0 <= i < reads.len() && differs(#[trigger] s.visits[s.pos + 1 + i]->Entry_0, reads[i])) by {
        if archive_changes(s, reads) {
            let i = choose|i: int|
                0 <= i < count && differs(#[trigger] open.visits[open.pos + i]->Entry_0, reads[i]);
            assert(open.visits[open.pos + i] == s.visits[s.pos + 1 + i]);
        }
        if exists|i: int|
            0 <= i < reads.len() && differs(#[trigger] s.visits[s.pos + 1 + i]->Entry_0, reads[i]) {
            let i = choose|i: int|
                0 <= i < reads.len() && differs(
                    #[trigger] s.visits[s.pos + 1 + i]->Entry_0,
                    reads[i],
                );
            assert(open.visits[open.pos + i] == s.visits[s.pos + 1 + i]);
        }
    }
    let middle_events = entries_events(open, reads, count);
    let middle = entries_actions(open, reads, count);
    let read = entries_end(open, reads, count);
    lemma_feed_one(s, EventView::Done);
    lemma_feed_concat(s, seq![EventView::Done], middle_events);
    let so_far = seq![EventView::Done] + middle_events;
    assert(feed(s, so_far).0 == read);
    assert(feed(s, so_far).1 =~= seq![opening] + middle);
    assert(read.visits[read.pos as int] is CloseArchive);
    assert(popped(read.urls, 1) =~= s.urls);
    let head = seq![opening] + middle;
    lemma_count_none(middle, ActionKind::OpenArchive, middle.len());
    lemma_count_none(middle, ActionKind::Finalize, middle.len());
    lemma_count_none(middle, ActionKind::Defrag, middle.len());
    reveal_with_fuel(count_of, 3);
    lemma_count_concat(seq![opening], middle, ActionKind::OpenArchive, middle.len());
    lemma_count_concat(seq![opening], middle, ActionKind::Finalize, middle.len());
    lemma_count_concat(seq![opening], middle, ActionKind::Defrag, middle.len());
    if archive_changes(s, reads) {
        let closing = seq![EventView::Done, EventView::Done];
        let closed = seq![ActionView::Finalize, ActionView::Defrag];
        assert(read.changed);
        let finalizing = next(read, EventView::Done).0;
        assert(next(read, EventView::Done).1 == ActionView::Finalize);
        assert(finalizing.queue =~= seq![ActionView::Defrag]);
        let defragging = next(finalizing, EventView::Done).0;
        assert(next(finalizing, EventView::Done).1 == ActionView::Defrag);
        assert(defragging.queue =~= Seq::<ActionView>::empty());
        lemma_feed_one(read, EventView::Done);
        lemma_feed_one(finalizing, EventView::Done);
        assert(closing =~= seq![EventView::Done] + seq![EventView::Done]);
        lemma_feed_concat(read, seq![EventView::Done], seq![EventView::Done]);
        assert(feed(read, closing).1 =~= closed);
        lemma_feed_concat(s, so_far, closing);
        assert(archive_events(s, reads) =~= so_far + closing);
        assert(archive_actions(s, reads) =~= head + closed);
        lemma_leaf_visits_monotonic(s.visits, read.pos + 1, s.visits.len());
        lemma_count_concat(head, closed, ActionKind::OpenArchive, 2);
        lemma_count_concat(head, closed, ActionKind::Finalize, 2);
        lemma_count_concat(head, closed, ActionKind::Defrag, 2);
        assert(head.len() == middle.len() + 1);
    } else {
        assert(archive_events(s, reads) =~= so_far);
        assert(archive_actions(s, reads) =~= head);
        assert(head.len() == middle.len() + 1);
    }
}

/// The state in which the walk has passed what asks nothing of the caller:
/// the directories that are entered and left, and the archives that are
/// closed without a change. It stands in front of the next file, archive or
/// entry, or of an archive that is to be finalized, or of a directory whose
/// URL cannot be made, or at the end.
pub open spec fn passed(s: SessionView) -> SessionView
    decreases s.visits.len() - s.pos,
{
    if s.pos >= s.visits.len() {
        s
    } else {
        match s.visits[s.pos as int] {
            VisitView::EnterDirectory(name) => match checked_url(
                joined_url(s.urls.last(), directory_segment_text(name)),
            ) {
                Ok(url) => passed(
                    SessionView {
                        pos: s.pos + 1,
                        urls: s.urls.push(url),
                        dirs: s.dirs.push(name),
                        ..s
                    },
                ),
                Err(_) => s,
            },
            VisitView::LeaveDirectory => passed(
                SessionView {
                    pos: s.pos + 1,
                    urls: popped(s.urls, 1),
                    dirs: popped(s.dirs, 0),
                    ..s
                },
            ),
            VisitView::CloseArchive => if s.changed {
                s
            } else {
                passed(SessionView { pos: s.pos + 1, urls: popped(s.urls, 1), ..s })
            },
            _ => s,
        }
    }
}

/// The directories on the way ask nothing of the caller, and neither does
/// an archive that is closed without a change: a session at rest in front
/// of them does, event for event, what it would do behind them. So what is
/// shown here of a session that stands in front of a file or of an archive
/// holds as well of one that has yet to pass directories to get there.
pub proof fn lemma_markers_are_passed(s: SessionView, events: Seq<EventView>)
    requires
        coherent(s),
        at_rest(s),
        events.len() > 0,
        events[0] is Done,
    ensures
        feed(s, events) == feed(passed(s), events),
        admissible(s, events) == admissible(passed(s), events),
        coherent(passed(s)),
        at_rest(passed(s)),
        passed(s).pos >= s.pos,
        passed(s).checked == s.checked,
        passed(s).changed == s.changed,
        passed(s).pending == s.pending,
        passed(s).visits == s.visits,
    decreases s.visits.len() - s.pos,
{
    if s.pos < s.visits.len() {
        lemma_leaf_visits_monotonic(s.visits, s.pos + 1, s.visits.len());
        match s.visits[s.pos as int] {
            VisitView::EnterDirectory(name) => {
                match checked_url(joined_url(s.urls.last(), directory_segment_text(name))) {
                    Ok(url) => {
                        let inside = SessionView {
                            pos: s.pos + 1,
                            urls: s.urls.push(url),
                            dirs: s.dirs.push(name),
                            ..s
                        };
                        assert(next(s, events[0]) == next(inside, events[0]));
                        lemma_markers_are_passed(inside, events);
                    },
                    Err(_) => {},
                }
            },
            VisitView::LeaveDirectory => {
                let outside = SessionView {
                    pos: s.pos + 1,
                    urls: popped(s.urls, 1),
                    dirs: popped(s.dirs, 0),
                    ..s
                };
                assert(next(s, events[0]) == next(outside, events[0]));
                lemma_markers_are_passed(outside, events);
            },
            VisitView::CloseArchive => {
                if !s.changed {
                    let behind = SessionView { pos: s.pos + 1, urls: popped(s.urls, 1), ..s };
                    assert(next(s, events[0]) == next(behind, events[0]));
                    lemma_markers_are_passed(behind, events);
                }
            },
            _ => {},
        }
    }
}

/// A session that has passed the last visit ends: the closing report is
/// handed out, with the number of files as the text and the whole as the
/// part that is done, and then the end. Every file has been checked.
pub proof fn lemma_end_run(s: SessionView)
    requires
        coherent(s),
        at_rest(s),
        s.pos == s.visits.len(),
    ensures
        admissible(s, dones(2)),
        feed(s, dones(2)).1 == seq![summary_of(s), ActionView::Finish],
        feed(s, dones(2)).0.awaiting is Over,
        feed(s, dones(2)).0.checked == s.total,
{
    let events = dones(2);
    reveal_with_fuel(feed, 3);
    reveal_with_fuel(admissible, 3);
    let summed = next(s, EventView::Done).0;
    assert(events[0] == EventView::Done);
    assert(events.drop_first()[0] == EventView::Done);
    assert(events.drop_first().drop_first() =~= Seq::<EventView>::empty());
    assert(feed(s, events).1 =~= seq![summary_of(s), ActionView::Finish]);
}

/// A session starts in order: in the state in which it is made it is at
/// rest, it has checked nothing, and the number of files that it is to
/// check is the number of `File` leaves of the subtree plus the number of
/// entries of its archives.
pub proof fn lemma_initial_is_coherent(
    directory: DirectoryView,
    platform_url: Seq<char>,
    exe_name: Option<Seq<char>>,
)
    requires
        leaf_count_among(directory.children, directory.children.len()) <= usize::MAX,
    ensures
        coherent(initial(directory, platform_url, exe_name)),
        at_rest(initial(directory, platform_url, exe_name)),
        initial(directory, platform_url, exe_name).total == leaf_count(
            NodeView::Directory(directory),
        ),
        archives_whole(initial(directory, platform_url, exe_name).visits),
{
    lemma_walk_counts_leaves_among(directory.children, directory.children.len());
    lemma_walk_archives_whole(directory);
}

/// A subtree that holds one file, and no local file at its place: the file
/// is inspected, reported as file 1 of 1 with the whole as the part that is
/// done, fetched once from its URL below the platform's, and written once
/// to its place; then come the closing report and the end.
pub proof fn lemma_single_absent_file(
    directory: DirectoryView,
    platform_url: Seq<char>,
    exe_name: Option<Seq<char>>,
)
    requires
        directory.children.len() == 1,
        directory.children[0] is File,
        joined_url(platform_url, directory.children[0]->File_0.name) is Ok,
    ensures
        ({
            let s = initial(directory, platform_url, exe_name);
            let entry = directory.children[0]->File_0;
            let url = joined_url(platform_url, entry.name)->Ok_0;
            let report = ActionView::Report {
                text: progress_text(1, 1, directory.name),
                progress: Fraction { done: 1, of: 1 },
            };
            let plan = seq![
                report,
                ActionView::Fetch { url },
                ActionView::WriteFile { target: TargetView::Install(seq![entry.name]) },
            ];
            let events = file_events(LocalFileView::Absent, plan) + dones(2);
            let actions = feed(s, events).1;
            &&& admissible(s, events)
            &&& actions == seq![
                ActionView::InspectFile { path: seq![entry.name] },
                report,
                ActionView::Fetch { url },
                ActionView::WriteFile { target: TargetView::Install(seq![entry.name]) },
                ActionView::Report {
                    text: summary_text(1),
                    progress: Fraction { done: 1, of: 1 },
                },
                ActionView::Finish,
            ]
            &&& count_of(actions, ActionKind::Fetch, actions.len()) == 1
            &&& count_of(actions, ActionKind::WriteFile, actions.len()) == 1
        }),
{
    let s = initial(directory, platform_url, exe_name);
    let entry = directory.children[0]->File_0;
    let url = joined_url(platform_url, entry.name)->Ok_0;
    let local = LocalFileView::Absent;
    reveal_with_fuel(visits_among, 2);
    reveal_with_fuel(file_leaves_among, 2);
    reveal_with_fuel(archive_entries_among, 2);
    assert(directory.children[0] == NodeView::File(entry));
    assert(s.visits =~= seq![VisitView::File(entry)]);
    assert(s.total == 1);
    lemma_initial_is_coherent(directory, platform_url, exe_name);
    assert(s.urls.last() == platform_url);
    let path = s.dirs.push(entry.name);
    assert(path =~= seq![entry.name]);
    let plan = file_plan(entry, path, url, local, exe_name, report_of(s))->Ok_0;
    lemma_file_run(s, local);
    let behind = feed(s, file_events(local, plan)).0;
    lemma_end_run(behind);
    lemma_feed_concat(s, file_events(local, plan), dones(2));
    let actions = feed(s, file_events(local, plan) + dones(2)).1;
    assert(actions =~= seq![
        ActionView::InspectFile { path },
        plan[0],
        plan[1],
        plan[2],
        summary_of(behind),
        ActionView::Finish,
    ]);
    reveal_with_fuel(count_of, 7);
}

} // verus!
