//! The manifest: the tree of files that the server declares.

use vstd::prelude::*;
use vstd::string::*;
use crate::text::same_text;

verus! {

/// A tracked file: its name and the digest of its content. The digest is the
/// only thing that decides whether a local copy is up to date.
#[derive(Debug, PartialEq, Eq)]
pub struct FileEntry {
    pub name: String,
    pub digest: String,
}

/// What the contracts say of a `FileEntry`: its texts are sequences of
/// characters.
pub struct EntryView {
    pub name: Seq<char>,
    pub digest: Seq<char>,
}

impl View for FileEntry {
    type V = EntryView;

    open spec fn view(&self) -> EntryView {
        EntryView { name: self.name@, digest: self.digest@ }
    }
}

impl FileEntry {
    /// Makes a copy of the entry.
    pub fn duplicate(&self) -> (copy: FileEntry)
        ensures
            copy@ == self@,
    {
        FileEntry { name: self.name.clone(), digest: self.digest.clone() }
    }
}

/// The entries expected inside one packed container.
#[derive(Debug, PartialEq, Eq)]
pub struct Archive {
    pub name: String,
    pub files: Vec<FileEntry>,
}

/// What the contracts say of a `Archive`: its texts are sequences of
/// characters.
pub struct ArchiveView {
    pub name: Seq<char>,
    pub files: Seq<EntryView>,
}

impl View for Archive {
    type V = ArchiveView;

    open spec fn view(&self) -> ArchiveView {
        ArchiveView { name: self.name@, files: self.files@.map_values(|f: FileEntry| f@) }
    }
}

/// A subtree. The order of the children is the order of traversal.
#[derive(Debug, PartialEq, Eq)]
pub struct Directory {
    pub name: String,
    pub children: Vec<ManifestNode>,
}

/// A node of the manifest.
#[derive(Debug, PartialEq, Eq)]
pub enum ManifestNode {
    File(FileEntry),
    Directory(Directory),
    Archive(Archive),
}

/// What the contracts say of a `Directory`: its texts are sequences of
/// characters.
pub struct DirectoryView {
    pub name: Seq<char>,
    pub children: Seq<NodeView>,
}

/// What the contracts say of a `ManifestNode`: its texts are sequences of
/// characters.
pub enum NodeView {
    File(EntryView),
    Directory(DirectoryView),
    Archive(ArchiveView),
}

/// The view of a node.
pub open spec fn node_view(node: ManifestNode) -> NodeView
    decreases node, 0nat,
{
    match node {
        ManifestNode::File(f) => NodeView::File(f@),
        ManifestNode::Directory(d) => NodeView::Directory(
            DirectoryView { name: d.name@, children: nodes_view(d.children, d.children.len() as nat) },
        ),
        ManifestNode::Archive(a) => NodeView::Archive(a@),
    }
}

/// The views of the first `upto` of `nodes`.
pub open spec fn nodes_view(nodes: Vec<ManifestNode>, upto: nat) -> Seq<NodeView>
    decreases nodes, upto,
{
    if upto == 0 || upto > nodes.len() {
        Seq::empty()
    } else {
        nodes_view(nodes, (upto - 1) as nat).push(node_view(nodes[upto - 1]))
    }
}

/// The views of some nodes are the views of each, in the same order.
pub proof fn lemma_nodes_view(nodes: Vec<ManifestNode>, upto: nat)
    requires
        upto <= nodes.len(),
    ensures
        nodes_view(nodes, upto).len() == upto,
        forall|i: int| 0 <= i < upto ==> #[trigger] nodes_view(nodes, upto)[i] == node_view(nodes[i]),
    decreases upto,
{
    if upto > 0 {
        lemma_nodes_view(nodes, (upto - 1) as nat);
    }
}

impl View for ManifestNode {
    type V = NodeView;

    open spec fn view(&self) -> NodeView {
        node_view(*self)
    }
}

impl View for Directory {
    type V = DirectoryView;

    open spec fn view(&self) -> DirectoryView {
        DirectoryView {
            name: self.name@,
            children: nodes_view(self.children, self.children.len() as nat),
        }
    }
}

/// Number of `File` leaves in a subtree.
pub open spec fn file_leaves(node: NodeView) -> nat
    decreases node, 0nat,
{
    match node {
        NodeView::File(_) => 1,
        NodeView::Directory(d) => file_leaves_among(d.children, d.children.len()),
        NodeView::Archive(_) => 0,
    }
}

/// Number of `File` leaves under the first `upto` of `children`.
pub open spec fn file_leaves_among(children: Seq<NodeView>, upto: nat) -> nat
    decreases children, upto,
{
    if upto == 0 || upto > children.len() {
        0
    } else {
        file_leaves_among(children, (upto - 1) as nat) + file_leaves(children[upto - 1])
    }
}

/// Sum of the lengths of the entry lists of the archives in a subtree.
pub open spec fn archive_entries(node: NodeView) -> nat
    decreases node, 0nat,
{
    match node {
        NodeView::File(_) => 0,
        NodeView::Directory(d) => archive_entries_among(d.children, d.children.len()),
        NodeView::Archive(a) => a.files.len(),
    }
}

/// Sum of the lengths of the entry lists of the archives under the first
/// `upto` of `children`.
pub open spec fn archive_entries_among(children: Seq<NodeView>, upto: nat) -> nat
    decreases children, upto,
{
    if upto == 0 || upto > children.len() {
        0
    } else {
        archive_entries_among(children, (upto - 1) as nat) + archive_entries(children[upto - 1])
    }
}

/// Number of files that a subtree asks to be checked: its `File` leaves and
/// the entries of its archives.
pub open spec fn leaf_count(node: NodeView) -> nat {
    file_leaves(node) + archive_entries(node)
}

/// The same count over the first `upto` of `children`.
pub open spec fn leaf_count_among(children: Seq<NodeView>, upto: nat) -> nat {
    file_leaves_among(children, upto) + archive_entries_among(children, upto)
}

/// Index of the first child that is a directory called `name`, if there is one.
pub open spec fn first_directory_named(children: Seq<NodeView>, name: Seq<char>, from: nat) -> Option<
    nat,
>
    decreases children.len() - from,
{
    if from >= children.len() {
        None
    } else if children[from as int] matches NodeView::Directory(d) && d.name == name {
        Some(from)
    } else {
        first_directory_named(children, name, from + 1)
    }
}

/// What is found is a child, a directory, and called `name`, and no child
/// in front of it is a directory called `name`.
pub proof fn lemma_first_directory_named(children: Seq<NodeView>, name: Seq<char>, from: nat)
    ensures
        match first_directory_named(children, name, from) {
            Some(i) => {
                &&& from <= i < children.len()
                &&& children[i as int] matches NodeView::Directory(d) && d.name == name
                &&& forall|j: int|
                    from <= j < i ==> !(#[trigger] children[j] matches NodeView::Directory(d)
                        && d.name == name)
            },
            None => forall|j: int|
                from <= j < children.len() ==> !(#[trigger] children[j] matches NodeView::Directory(
                    d,
                ) && d.name == name),
        },
    decreases children.len() - from,
{
    if from < children.len() {
        lemma_first_directory_named(children, name, from + 1);
    }
}

/// A count over a prefix of the children never exceeds the count over all of them.
pub proof fn lemma_leaf_count_among_monotonic(children: Seq<NodeView>, i: nat, j: nat)
    requires
        i <= j <= children.len(),
    ensures
        leaf_count_among(children, i) <= leaf_count_among(children, j),
    decreases j,
{
    if i < j {
        lemma_leaf_count_among_monotonic(children, i, (j - 1) as nat);
    }
}

/// Counts the files that `children` ask to be checked.
fn count_among(children: &Vec<ManifestNode>) -> (total: usize)
    requires
        leaf_count_among(nodes_view(*children, children.len() as nat), children.len() as nat)
            <= usize::MAX,
    ensures
        total == leaf_count_among(
            nodes_view(*children, children.len() as nat),
            children.len() as nat,
        ),
    decreases children,
{
    let ghost views = nodes_view(*children, children.len() as nat);
    proof {
        lemma_nodes_view(*children, children.len() as nat);
    }
    let mut total: usize = 0;
    let mut i: usize = 0;
    while i < children.len()
        invariant
            i <= children.len(),
            views.len() == children.len(),
            forall|k: int| 0 <= k < children.len() ==> #[trigger] views[k] == node_view(children[k]),
            total == leaf_count_among(views, i as nat),
            leaf_count_among(views, children.len() as nat) <= usize::MAX,
        decreases children.len() - i,
    {
        proof {
            lemma_leaf_count_among_monotonic(views, (i + 1) as nat, children.len() as nat);
            assert(views[i as int] == children[i as int]@);
        }
        let n = count_leaf_files(&children[i]);
        total = total + n;
        i = i + 1;
    }
    total
}

/// Counts the files that a subtree asks to be checked: one for each `File`
/// leaf, and one for each entry of each archive.
pub fn count_leaf_files(node: &ManifestNode) -> (total: usize)
    requires
        leaf_count(node@) <= usize::MAX,
    ensures
        total == leaf_count(node@),
        total == file_leaves(node@) + archive_entries(node@),
    decreases node,
{
    match node {
        ManifestNode::File(_) => 1,
        ManifestNode::Directory(d) => {
            proof {
                lemma_nodes_view(d.children, d.children.len() as nat);
            }
            count_among(&d.children)
        },
        ManifestNode::Archive(a) => a.files.len(),
    }
}

impl Directory {
    /// Counts the files that this directory asks to be checked.
    pub fn total_files(&self) -> (total: usize)
        requires
            leaf_count_among(self@.children, self@.children.len()) <= usize::MAX,
        ensures
            total == leaf_count_among(self@.children, self@.children.len()),
            total == leaf_count(NodeView::Directory(self@)),
    {
        proof {
            lemma_nodes_view(self.children, self.children.len() as nat);
        }
        count_among(&self.children)
    }
}

/// Looks among the direct children of `directory` for a directory called
/// `name`, and returns the first one.
pub fn find_child_directory<'a>(directory: &'a Directory, name: &str) -> (found: Option<
    &'a Directory,
>)
    ensures
        match first_directory_named(directory@.children, name@, 0) {
            Some(i) => found matches Some(d) && i < directory.children.len()
                && directory.children[i as int] == ManifestNode::Directory(*d)
                && directory@.children[i as int] == NodeView::Directory(d@) && d@.name == name@,
            None => found is None,
        },
{
    let mut i: usize = 0;
    proof {
        lemma_nodes_view(directory.children, directory.children.len() as nat);
    }
    while i < directory.children.len()
        invariant
            i <= directory.children.len(),
            directory@.children.len() == directory.children.len(),
            first_directory_named(directory@.children, name@, 0) == first_directory_named(
                directory@.children,
                name@,
                i as nat,
            ),
        decreases directory.children.len() - i,
    {
        proof {
            lemma_nodes_view(directory.children, directory.children.len() as nat);
        }
        assert(directory@.children[i as int] == directory.children[i as int]@);
        if let ManifestNode::Directory(d) = &directory.children[i] {
            if same_text(d.name.as_str(), name) {
                return Some(d);
            }
        }
        i = i + 1;
    }
    None
}

} // verus!
