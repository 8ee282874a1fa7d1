//! The order in which a subtree of the manifest is walked.

use vstd::prelude::*;
use vstd::string::*;
use crate::manifest::{
    leaf_count, leaf_count_among, lemma_nodes_view, node_view, nodes_view, Archive, Directory,
    DirectoryView, EntryView, FileEntry, ManifestNode, NodeView,
};

verus! {

/// One stop of the walk through a subtree.
#[derive(Debug, PartialEq, Eq)]
pub enum Visit {
    /// Go down into the directory of this name.
    EnterDirectory(String),
    /// Come back up from the directory that was entered last.
    LeaveDirectory,
    /// A tracked file in the current directory.
    File(FileEntry),
    /// Open the archive of this name in the current directory.
    OpenArchive(String),
    /// An entry of the archive that is open.
    Entry(FileEntry),
    /// Close the archive that is open.
    CloseArchive,
}

/// What the contracts say of a `Visit`: its texts are sequences of
/// characters.
pub enum VisitView {
    EnterDirectory(Seq<char>),
    LeaveDirectory,
    File(EntryView),
    OpenArchive(Seq<char>),
    Entry(EntryView),
    CloseArchive,
}

impl View for Visit {
    type V = VisitView;

    open spec fn view(&self) -> VisitView {
        match self {
            Visit::EnterDirectory(n) => VisitView::EnterDirectory(n@),
            Visit::LeaveDirectory => VisitView::LeaveDirectory,
            Visit::File(f) => VisitView::File(f@),
            Visit::OpenArchive(n) => VisitView::OpenArchive(n@),
            Visit::Entry(f) => VisitView::Entry(f@),
            Visit::CloseArchive => VisitView::CloseArchive,
        }
    }
}

/// The views of some visits, in the same order.
pub open spec fn visits_view(visits: Seq<Visit>) -> Seq<VisitView> {
    visits.map_values(|v: Visit| v@)
}

/// The entries of an archive as visits, in the same order.
pub open spec fn entry_visits(files: Seq<EntryView>) -> Seq<VisitView> {
    files.map_values(|f: EntryView| VisitView::Entry(f))
}

/// The walk through one node: a file is one stop; a directory is entered,
/// its children are walked in order, and it is left; an archive is opened,
/// its entries are visited in order, and it is closed.
pub open spec fn visits_of(node: NodeView) -> Seq<VisitView>
    decreases node, 0nat,
{
    match node {
        NodeView::File(f) => seq![VisitView::File(f)],
        NodeView::Directory(d) => seq![VisitView::EnterDirectory(d.name)] + visits_among(
            d.children,
            d.children.len(),
        ) + seq![VisitView::LeaveDirectory],
        NodeView::Archive(a) => seq![VisitView::OpenArchive(a.name)] + entry_visits(a.files)
            + seq![VisitView::CloseArchive],
    }
}

/// The walk through the first `upto` of `children`, one after the other.
pub open spec fn visits_among(children: Seq<NodeView>, upto: nat) -> Seq<VisitView>
    decreases children, upto,
{
    if upto == 0 || upto > children.len() {
        Seq::empty()
    } else {
        visits_among(children, (upto - 1) as nat) + visits_of(children[upto - 1])
    }
}

/// The walk through a platform's subtree: its children in order. The subtree
/// itself is not entered: its place on disk and on the server is given.
pub open spec fn walk_of(directory: DirectoryView) -> Seq<VisitView> {
    visits_among(directory.children, directory.children.len())
}

/// True for the visits that ask for a file to be checked.
pub open spec fn is_leaf(visit: VisitView) -> bool {
    visit is File || visit is Entry
}

/// Number of files to check among the first `upto` visits.
pub open spec fn leaf_visits(visits: Seq<VisitView>, upto: nat) -> nat
    decreases upto,
{
    if upto == 0 || upto > visits.len() {
        0
    } else {
        leaf_visits(visits, (upto - 1) as nat) + if is_leaf(visits[upto - 1]) {
            1nat
        } else {
            0nat
        }
    }
}

/// Counting is monotonic in the number of visits counted.
pub proof fn lemma_leaf_visits_monotonic(visits: Seq<VisitView>, i: nat, j: nat)
    requires
        i <= j <= visits.len(),
    ensures
        leaf_visits(visits, i) <= leaf_visits(visits, j),
        leaf_visits(visits, j) <= leaf_visits(visits, i) + (j - i),
    decreases j,
{
    if i < j {
        lemma_leaf_visits_monotonic(visits, i, (j - 1) as nat);
    }
}

/// The count on a prefix does not depend on what follows the prefix.
pub proof fn lemma_leaf_visits_prefix(a: Seq<VisitView>, b: Seq<VisitView>, upto: nat)
    requires
        upto <= a.len(),
    ensures
        leaf_visits(a + b, upto) == leaf_visits(a, upto),
    decreases upto,
{
    if upto > 0 {
        lemma_leaf_visits_prefix(a, b, (upto - 1) as nat);
        assert((a + b)[upto - 1] == a[upto - 1]);
    }
}

/// The count of two walks, one after the other, is the sum of their counts.
pub proof fn lemma_leaf_visits_concat(a: Seq<VisitView>, b: Seq<VisitView>, upto: nat)
    requires
        upto <= b.len(),
    ensures
        leaf_visits(a + b, a.len() + upto) == leaf_visits(a, a.len()) + leaf_visits(b, upto),
    decreases upto,
{
    if upto == 0 {
        lemma_leaf_visits_prefix(a, b, a.len());
    } else {
        lemma_leaf_visits_concat(a, b, (upto - 1) as nat);
        assert((a + b)[a.len() + upto - 1] == b[upto - 1]);
    }
}

/// Every entry of an archive is a file to check.
pub proof fn lemma_leaf_visits_entries(files: Seq<EntryView>, upto: nat)
    requires
        upto <= files.len(),
    ensures
        leaf_visits(entry_visits(files), upto) == upto,
    decreases upto,
{
    if upto > 0 {
        lemma_leaf_visits_entries(files, (upto - 1) as nat);
    }
}

/// The walk through a node stops once at each of its `File` leaves and once
/// at each entry of its archives, and nowhere else to check a file.
pub proof fn lemma_walk_counts_leaves(node: NodeView)
    ensures
        leaf_visits(visits_of(node), visits_of(node).len()) == leaf_count(node),
    decreases node, 0nat,
{
    match node {
        NodeView::File(f) => {
            let v = visits_of(node);
            assert(v.len() == 1);
            assert(leaf_visits(v, 0) == 0);
        },
        NodeView::Directory(d) => {
            let first = seq![VisitView::EnterDirectory(d.name)];
            let middle = visits_among(d.children, d.children.len());
            let last = seq![VisitView::LeaveDirectory];
            lemma_walk_counts_leaves_among(d.children, d.children.len());
            assert(leaf_visits(first, 1) == 0) by {
                assert(leaf_visits(first, 0) == 0);
            }
            assert(leaf_visits(last, 1) == 0) by {
                assert(leaf_visits(last, 0) == 0);
            }
            lemma_leaf_visits_concat(first, middle, middle.len());
            lemma_leaf_visits_concat(first + middle, last, 1);
        },
        NodeView::Archive(a) => {
            let first = seq![VisitView::OpenArchive(a.name)];
            let middle = entry_visits(a.files);
            let last = seq![VisitView::CloseArchive];
            lemma_leaf_visits_entries(a.files, a.files.len());
            assert(leaf_visits(first, 1) == 0) by {
                assert(leaf_visits(first, 0) == 0);
            }
            assert(leaf_visits(last, 1) == 0) by {
                assert(leaf_visits(last, 0) == 0);
            }
            lemma_leaf_visits_concat(first, middle, middle.len());
            lemma_leaf_visits_concat(first + middle, last, 1);
        },
    }
}

/// The same for the first `upto` of some children.
pub proof fn lemma_walk_counts_leaves_among(children: Seq<NodeView>, upto: nat)
    requires
        upto <= children.len(),
    ensures
        leaf_visits(visits_among(children, upto), visits_among(children, upto).len())
            == leaf_count_among(children, upto),
    decreases children, upto,
{
    if upto > 0 {
        let before = visits_among(children, (upto - 1) as nat);
        let here = visits_of(children[upto - 1]);
        lemma_walk_counts_leaves_among(children, (upto - 1) as nat);
        lemma_walk_counts_leaves(children[upto - 1]);
        lemma_leaf_visits_concat(before, here, here.len());
    }
}

/// True if the archive that is opened at the visit `at` has `count`
/// entries: they are the next `count` visits, and the visit after them
/// closes the archive.
pub open spec fn archive_at(walk: Seq<VisitView>, at: int, count: nat) -> bool {
    &&& 0 <= at
    &&& at + count + 1 < walk.len()
    &&& walk[at] is OpenArchive
    &&& forall|i: int| 0 <= i < count ==> (#[trigger] walk[at + 1 + i]) is Entry
    &&& walk[at + count + 1] is CloseArchive
}

/// True if every archive that is opened in the walk is whole: its entries
/// follow at once, and then it is closed.
pub open spec fn archives_whole(walk: Seq<VisitView>) -> bool {
    forall|at: int|
        0 <= at < walk.len() && (#[trigger] walk[at]) is OpenArchive ==> exists|count: nat|
            archive_at(walk, at, count)
}

/// Two walks in which every archive is whole make, one after the other, a
/// walk in which every archive is whole.
pub proof fn lemma_archives_whole_concat(a: Seq<VisitView>, b: Seq<VisitView>)
    requires
        archives_whole(a),
        archives_whole(b),
    ensures
        archives_whole(a + b),
{
    let both = a + b;
    assert forall|at: int| 0 <= at < both.len() && (#[trigger] both[at]) is OpenArchive implies exists|
        count: nat,
    |
        archive_at(both, at, count) by {
        if at < a.len() {
            assert(a[at] is OpenArchive);
            let count = choose|count: nat| archive_at(a, at, count);
            assert forall|i: int| 0 <= i < count implies (#[trigger] both[at + 1 + i]) is Entry by {
                assert(a[at + 1 + i] is Entry);
            }
            assert(both[at + count + 1] == a[at + count + 1]);
            assert(archive_at(both, at, count));
        } else {
            let inner = at - a.len();
            assert(b[inner] is OpenArchive);
            let count = choose|count: nat| archive_at(b, inner, count);
            assert forall|i: int| 0 <= i < count implies (#[trigger] both[at + 1 + i]) is Entry by {
                assert(b[inner + 1 + i] is Entry);
                assert(both[at + 1 + i] == b[inner + 1 + i]);
            }
            assert(both[at + count + 1] == b[inner + count + 1]);
            assert(archive_at(both, at, count));
        }
    }
}

/// In the walk through a node every archive is whole.
pub proof fn lemma_archives_whole(node: NodeView)
    ensures
        archives_whole(visits_of(node)),
    decreases node, 0nat,
{
    match node {
        NodeView::File(f) => {},
        NodeView::Directory(d) => {
            let first = seq![VisitView::EnterDirectory(d.name)];
            let middle = visits_among(d.children, d.children.len());
            let last = seq![VisitView::LeaveDirectory];
            lemma_archives_whole_among(d.children, d.children.len());
            assert(archives_whole(first));
            assert(archives_whole(last));
            lemma_archives_whole_concat(first, middle);
            lemma_archives_whole_concat(first + middle, last);
        },
        NodeView::Archive(a) => {
            let walk = visits_of(node);
            let count = a.files.len();
            assert forall|at: int| 0 <= at < walk.len() && (#[trigger] walk[at]) is OpenArchive implies exists|
                count: nat,
            |
                archive_at(walk, at, count) by {
                assert(at == 0) by {
                    if 0 < at < walk.len() - 1 {
                        assert(walk[at] == entry_visits(a.files)[at - 1]);
                    }
                }
                assert forall|i: int| 0 <= i < count implies (#[trigger] walk[at + 1 + i]) is Entry by {
                    assert(walk[at + 1 + i] == entry_visits(a.files)[i]);
                }
                assert(archive_at(walk, at, count));
            }
        },
    }
}

/// The same for the first `upto` of some children.
pub proof fn lemma_archives_whole_among(children: Seq<NodeView>, upto: nat)
    requires
        upto <= children.len(),
    ensures
        archives_whole(visits_among(children, upto)),
    decreases children, upto,
{
    if upto > 0 {
        lemma_archives_whole_among(children, (upto - 1) as nat);
        lemma_archives_whole(children[upto - 1]);
        lemma_archives_whole_concat(
            visits_among(children, (upto - 1) as nat),
            visits_of(children[upto - 1]),
        );
    }
}

/// In the walk through a platform's subtree every archive is whole: where
/// the walk opens an archive, the entries of that archive follow at once
/// and nothing else, and then the archive is closed.
pub proof fn lemma_walk_archives_whole(directory: DirectoryView)
    ensures
        archives_whole(walk_of(directory)),
{
    lemma_archives_whole_among(directory.children, directory.children.len());
}

/// Appends the walk through `node` to `out`.
fn collect(node: &ManifestNode, out: &mut Vec<Visit>)
    ensures
        visits_view(final(out)@) == visits_view(old(out)@) + visits_of(node@),
    decreases node,
{
    match node {
        ManifestNode::File(f) => {
            out.push(Visit::File(f.duplicate()));
            assert(visits_view(out@) =~= visits_view(old(out)@) + visits_of(node@));
        },
        ManifestNode::Directory(d) => {
            out.push(Visit::EnterDirectory(d.name.clone()));
            let ghost entered = visits_view(out@);
            assert(entered =~= visits_view(old(out)@) + seq![VisitView::EnterDirectory(d.name@)]);
            collect_among(&d.children, out);
            let ghost walked = visits_view(out@);
            out.push(Visit::LeaveDirectory);
            proof {
                lemma_nodes_view(d.children, d.children.len() as nat);
                assert(visits_view(out@) =~= walked + seq![VisitView::LeaveDirectory]);
                assert(visits_view(out@) =~= visits_view(old(out)@) + visits_of(node@));
            }
        },
        ManifestNode::Archive(a) => {
            out.push(Visit::OpenArchive(a.name.clone()));
            let ghost opened = visits_view(out@);
            assert(opened =~= visits_view(old(out)@) + seq![VisitView::OpenArchive(a.name@)]);
            let mut i: usize = 0;
            while i < a.files.len()
                invariant
                    i <= a.files.len(),
                    visits_view(out@) == opened + entry_visits(a@.files.take(i as int)),
                decreases a.files.len() - i,
            {
                let ghost before = visits_view(out@);
                out.push(Visit::Entry(a.files[i].duplicate()));
                proof {
                    let entry = a@.files[i as int];
                    assert(entry == a.files[i as int]@);
                    assert(a@.files.take(i + 1) =~= a@.files.take(i as int).push(entry));
                    assert(entry_visits(a@.files.take(i + 1)) =~= entry_visits(
                        a@.files.take(i as int),
                    ).push(VisitView::Entry(entry)));
                    assert(visits_view(out@) =~= before.push(VisitView::Entry(entry)));
                    assert(visits_view(out@) =~= opened + entry_visits(a@.files.take(i + 1)));
                }
                i = i + 1;
            }
            let ghost listed = visits_view(out@);
            out.push(Visit::CloseArchive);
            proof {
                assert(a@.files.take(a.files.len() as int) =~= a@.files);
                assert(visits_view(out@) =~= listed + seq![VisitView::CloseArchive]);
                assert(visits_view(out@) =~= visits_view(old(out)@) + visits_of(node@));
            }
        },
    }
}

/// Appends the walk through `children` to `out`.
fn collect_among(children: &Vec<ManifestNode>, out: &mut Vec<Visit>)
    ensures
        visits_view(final(out)@) == visits_view(old(out)@) + visits_among(
            nodes_view(*children, children.len() as nat),
            children.len() as nat,
        ),
    decreases children,
{
    let ghost views = nodes_view(*children, children.len() as nat);
    proof {
        lemma_nodes_view(*children, children.len() as nat);
    }
    let mut i: usize = 0;
    while i < children.len()
        invariant
            i <= children.len(),
            views.len() == children.len(),
            forall|k: int| 0 <= k < children.len() ==> #[trigger] views[k] == node_view(children[k]),
            visits_view(out@) == visits_view(old(out)@) + visits_among(views, i as nat),
        decreases children.len() - i,
    {
        collect(&children[i], out);
        proof {
            assert(views[i as int] == children[i as int]@);
            assert(visits_view(out@) =~= visits_view(old(out)@) + visits_among(
                views,
                (i + 1) as nat,
            ));
        }
        i = i + 1;
    }
}

/// Lays out the walk through a platform's subtree.
pub fn walk(directory: &Directory) -> (visits: Vec<Visit>)
    ensures
        visits_view(visits@) == walk_of(directory@),
{
    let mut visits: Vec<Visit> = Vec::new();
    collect_among(&directory.children, &mut visits);
    proof {
        lemma_nodes_view(directory.children, directory.children.len() as nat);
        assert(visits_view(visits@) =~= walk_of(directory@));
    }
    visits
}

} // verus!
