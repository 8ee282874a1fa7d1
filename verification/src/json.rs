//! Documents in JSON, as a tree of values, and how the manifest and the
//! server's status are read out of them.

use vstd::prelude::*;
use vstd::string::*;
use crate::attempt::ServerStatus;
use crate::error::{Failure, FailureKind, FailureView};
use crate::manifest::{
    lemma_nodes_view, node_view, nodes_view, Archive, ArchiveView, Directory, DirectoryView,
    EntryView, FileEntry, ManifestNode, NodeView,
};
use crate::text::same_text;

verus! {

/// The member of an object that says which kind of node the object is.
pub const TYPE_MEMBER: &'static str = "type";

/// The member that holds the name of a node or of an entry.
pub const NAME_MEMBER: &'static str = "name";

/// The member that holds the digest of a file or of an entry.
pub const DIGEST_MEMBER: &'static str = "digest";

/// The member that holds the children of a directory.
pub const CHILDREN_MEMBER: &'static str = "children";

/// The member that holds the entries of an archive.
pub const FILES_MEMBER: &'static str = "files";

/// The kind of a file.
pub const FILE_TYPE: &'static str = "file";

/// The kind of a directory.
pub const DIRECTORY_TYPE: &'static str = "directory";

/// The kind of an archive.
pub const ARCHIVE_TYPE: &'static str = "archive";

/// A value of a document.
#[derive(Debug, PartialEq, Eq)]
pub enum Json {
    Null,
    Bool(bool),
    /// A number, as it is written.
    Number(String),
    Text(String),
    List(Vec<Json>),
    /// The members of an object. Where a name occurs more than once, the
    /// first member of that name is the one that counts. In a tree that was
    /// read from bytes the members stand in the order of `serde_json`'s
    /// map, which keeps one member for each name; it is not the order in
    /// which the document has them.
    Object(Vec<Member>),
}

/// A member of an object.
#[derive(Debug, PartialEq, Eq)]
pub struct Member {
    pub name: String,
    pub value: Json,
}

/// What the contracts say of a `Json`: its texts are sequences of
/// characters.
pub enum JsonView {
    Null,
    Bool(bool),
    Number(Seq<char>),
    Text(Seq<char>),
    List(Seq<JsonView>),
    Object(Seq<MemberView>),
}

/// What the contracts say of a `Member`: its texts are sequences of
/// characters.
pub struct MemberView {
    pub name: Seq<char>,
    pub value: JsonView,
}

/// The view of a value.
pub open spec fn json_view(json: Json) -> JsonView
    decreases json, 0nat,
{
    match json {
        Json::Null => JsonView::Null,
        Json::Bool(b) => JsonView::Bool(b),
        Json::Number(n) => JsonView::Number(n@),
        Json::Text(t) => JsonView::Text(t@),
        Json::List(items) => JsonView::List(items_view(items, items.len() as nat)),
        Json::Object(members) => JsonView::Object(members_view(members, members.len() as nat)),
    }
}

/// The views of the first `upto` of `items`.
pub open spec fn items_view(items: Vec<Json>, upto: nat) -> Seq<JsonView>
    decreases items, upto,
{
    if upto == 0 || upto > items.len() {
        Seq::empty()
    } else {
        items_view(items, (upto - 1) as nat).push(json_view(items[upto - 1]))
    }
}

/// The views of the first `upto` of `members`.
pub open spec fn members_view(members: Vec<Member>, upto: nat) -> Seq<MemberView>
    decreases members, upto,
{
    if upto == 0 || upto > members.len() {
        Seq::empty()
    } else {
        members_view(members, (upto - 1) as nat).push(
            MemberView { name: members[upto - 1].name@, value: json_view(members[upto - 1].value) },
        )
    }
}

impl View for Json {
    type V = JsonView;

    open spec fn view(&self) -> JsonView {
        json_view(*self)
    }
}

impl View for Member {
    type V = MemberView;

    open spec fn view(&self) -> MemberView {
        MemberView { name: self.name@, value: json_view(self.value) }
    }
}

/// The views of some values are the views of each, in the same order.
pub proof fn lemma_items_view(items: Vec<Json>, upto: nat)
    requires
        upto <= items.len(),
    ensures
        items_view(items, upto).len() == upto,
        forall|i: int| 0 <= i < upto ==> #[trigger] items_view(items, upto)[i] == json_view(items[i]),
    decreases upto,
{
    if upto > 0 {
        lemma_items_view(items, (upto - 1) as nat);
    }
}

/// The views of some members are the views of each, in the same order.
pub proof fn lemma_members_view(members: Vec<Member>, upto: nat)
    requires
        upto <= members.len(),
    ensures
        members_view(members, upto).len() == upto,
        forall|i: int| 0 <= i < upto ==> #[trigger] members_view(members, upto)[i] == members[i]@,
    decreases upto,
{
    if upto > 0 {
        lemma_members_view(members, (upto - 1) as nat);
    }
}

/// The value of the first member called `name`, from the member with the
/// number `from` on.
pub open spec fn member_of(members: Seq<MemberView>, name: Seq<char>, from: nat) -> Option<JsonView>
    decreases members.len() - from,
{
    if from >= members.len() {
        None
    } else if members[from as int].name == name {
        Some(members[from as int].value)
    } else {
        member_of(members, name, from + 1)
    }
}

/// The text of the first member called `name`, if its value is a text.
pub open spec fn text_of(members: Seq<MemberView>, name: Seq<char>) -> Option<Seq<char>> {
    match member_of(members, name, 0) {
        Some(JsonView::Text(text)) => Some(text),
        _ => None,
    }
}

/// The items of the first member called `name`, if its value is a list.
pub open spec fn list_of(members: Seq<MemberView>, name: Seq<char>) -> Option<Seq<JsonView>> {
    match member_of(members, name, 0) {
        Some(JsonView::List(items)) => Some(items),
        _ => None,
    }
}

/// What is found among the members of an object is a part of the object.
pub proof fn lemma_member_is_smaller(members: Seq<MemberView>, name: Seq<char>, from: nat)
    ensures
        member_of(members, name, from) matches Some(value) ==> decreases_to!(members => value),
        member_of(members, name, from) matches Some(JsonView::List(items)) ==> decreases_to!(members => items),
    decreases members.len() - from,
{
    if from < members.len() {
        if members[from as int].name == name {
            assert(decreases_to!(members => members[from as int]));
            assert(decreases_to!(members[from as int] => members[from as int].value));
        } else {
            lemma_member_is_smaller(members, name, from + 1);
        }
    }
}

/// The entry that an object stands for: its name and its digest, both
/// texts. Other members do not count.
pub open spec fn entry_of(json: JsonView) -> Option<EntryView> {
    match json {
        JsonView::Object(members) => match (
            text_of(members, NAME_MEMBER@),
            text_of(members, DIGEST_MEMBER@),
        ) {
            (Some(name), Some(digest)) => Some(EntryView { name, digest }),
            _ => None,
        },
        _ => None,
    }
}

/// The entries that the first `upto` of `items` stand for, if each of them
/// stands for one.
pub open spec fn entries_of(items: Seq<JsonView>, upto: nat) -> Option<Seq<EntryView>>
    decreases upto,
{
    if upto == 0 || upto > items.len() {
        Some(Seq::empty())
    } else {
        match (entries_of(items, (upto - 1) as nat), entry_of(items[upto - 1])) {
            (Some(entries), Some(entry)) => Some(entries.push(entry)),
            _ => None,
        }
    }
}

/// The node that an object stands for. The member `type` says which kind it
/// is: a `file` has a name and a digest, a `directory` a name and children,
/// an `archive` a name and files. Other members do not count.
pub open spec fn node_of(json: JsonView) -> Option<NodeView>
    decreases json, 1nat,
{
    match json {
        JsonView::Object(members) => match text_of(members, TYPE_MEMBER@) {
            Some(kind) => if kind == FILE_TYPE@ {
                match entry_of(json) {
                    Some(entry) => Some(NodeView::File(entry)),
                    None => None,
                }
            } else if kind == DIRECTORY_TYPE@ {
                match directory_of(json) {
                    Some(directory) => Some(NodeView::Directory(directory)),
                    None => None,
                }
            } else if kind == ARCHIVE_TYPE@ {
                match (text_of(members, NAME_MEMBER@), list_of(members, FILES_MEMBER@)) {
                    (Some(name), Some(items)) => match entries_of(items, items.len()) {
                        Some(files) => Some(NodeView::Archive(ArchiveView { name, files })),
                        None => None,
                    },
                    _ => None,
                }
            } else {
                None
            },
            None => None,
        },
        _ => None,
    }
}

/// The directory that an object stands for: its name, a text, and its
/// children, a list of nodes.
pub open spec fn directory_of(json: JsonView) -> Option<DirectoryView>
    decreases json, 0nat,
{
    match json {
        JsonView::Object(members) => match (
            text_of(members, NAME_MEMBER@),
            list_of(members, CHILDREN_MEMBER@),
        ) {
            (Some(name), Some(items)) => {
                proof {
                    lemma_member_is_smaller(members, CHILDREN_MEMBER@, 0);
                }
                match nodes_of(items, items.len()) {
                    Some(children) => Some(DirectoryView { name, children }),
                    None => None,
                }
            },
            _ => None,
        },
        _ => None,
    }
}

/// The nodes that the first `upto` of `items` stand for, if each of them
/// stands for one.
pub open spec fn nodes_of(items: Seq<JsonView>, upto: nat) -> Option<Seq<NodeView>>
    decreases items, upto,
{
    if upto == 0 || upto > items.len() {
        Some(Seq::empty())
    } else {
        match (nodes_of(items, (upto - 1) as nat), node_of(items[upto - 1])) {
            (Some(nodes), Some(node)) => Some(nodes.push(node)),
            _ => None,
        }
    }
}

/// The status that a document stands for: the text `Online` or the text
/// `Maintenance`.
pub open spec fn status_of(json: JsonView) -> Option<ServerStatus> {
    match json {
        JsonView::Text(text) => if text == "Online"@ {
            Some(ServerStatus::Online)
        } else if text == "Maintenance"@ {
            Some(ServerStatus::Maintenance)
        } else {
            None
        },
        _ => None,
    }
}

/// Once an item stands for no entry, no longer list of items stands for entries.
pub proof fn lemma_entries_of_fails(items: Seq<JsonView>, failed: nat, upto: nat)
    requires
        0 < failed <= upto <= items.len(),
        entries_of(items, failed) is None,
    ensures
        entries_of(items, upto) is None,
    decreases upto,
{
    if failed < upto {
        lemma_entries_of_fails(items, failed, (upto - 1) as nat);
    }
}

/// Once an item stands for no node, no longer list of items stands for nodes.
pub proof fn lemma_nodes_of_fails(items: Seq<JsonView>, failed: nat, upto: nat)
    requires
        0 < failed <= upto <= items.len(),
        nodes_of(items, failed) is None,
    ensures
        nodes_of(items, upto) is None,
    decreases upto,
{
    if failed < upto {
        lemma_nodes_of_fails(items, failed, (upto - 1) as nat);
    }
}

/// Looks for the first member called `name`.
fn member<'a>(members: &'a Vec<Member>, name: &str) -> (found: Option<&'a Json>)
    ensures
        match found {
            Some(value) => member_of(members_view(*members, members.len() as nat), name@, 0)
                == Some(value@) && decreases_to!(*members => *value),
            None => member_of(members_view(*members, members.len() as nat), name@, 0) is None,
        },
{
    let ghost views = members_view(*members, members.len() as nat);
    proof {
        lemma_members_view(*members, members.len() as nat);
    }
    let mut i: usize = 0;
    while i < members.len()
        invariant
            i <= members.len(),
            views == members_view(*members, members.len() as nat),
            views.len() == members.len(),
            forall|k: int| 0 <= k < members.len() ==> #[trigger] views[k] == members[k]@,
            member_of(views, name@, 0) == member_of(views, name@, i as nat),
        decreases members.len() - i,
    {
        assert(views[i as int] == members[i as int]@);
        if same_text(members[i].name.as_str(), name) {
            assert(decreases_to!(*members => members[i as int]));
            assert(decreases_to!(members[i as int] => members[i as int].value));
            return Some(&members[i].value);
        }
        i = i + 1;
    }
    None
}

/// Looks for the first member called `name`, and takes it if it is a text.
fn text_member<'a>(members: &'a Vec<Member>, name: &str) -> (found: Option<&'a String>)
    ensures
        match found {
            Some(text) => text_of(members_view(*members, members.len() as nat), name@) == Some(
                text@,
            ),
            None => text_of(members_view(*members, members.len() as nat), name@) is None,
        },
{
    match member(members, name) {
        Some(Json::Text(text)) => Some(text),
        _ => None,
    }
}

/// Looks for the first member called `name`, and takes it if it is a list.
fn list_member<'a>(members: &'a Vec<Member>, name: &str) -> (found: Option<&'a Vec<Json>>)
    ensures
        match found {
            Some(items) => list_of(members_view(*members, members.len() as nat), name@) == Some(
                items_view(*items, items.len() as nat),
            ) && decreases_to!(*members => *items),
            None => list_of(members_view(*members, members.len() as nat), name@) is None,
        },
{
    match member(members, name) {
        Some(Json::List(items)) => Some(items),
        _ => None,
    }
}

/// Reads an entry out of a value.
pub fn entry_from_json(json: &Json) -> (entry: Option<FileEntry>)
    ensures
        match entry {
            Some(e) => entry_of(json@) == Some(e@),
            None => entry_of(json@) is None,
        },
{
    match json {
        Json::Object(members) => {
            match (text_member(members, NAME_MEMBER), text_member(members, DIGEST_MEMBER)) {
                (Some(name), Some(digest)) => Some(
                    FileEntry { name: name.clone(), digest: digest.clone() },
                ),
                _ => None,
            }
        },
        _ => None,
    }
}

/// Reads entries out of a list of values.
fn entries_from(items: &Vec<Json>) -> (entries: Option<Vec<FileEntry>>)
    ensures
        match entries {
            Some(e) => entries_of(items_view(*items, items.len() as nat), items.len() as nat)
                == Some(e@.map_values(|f: FileEntry| f@)),
            None => entries_of(items_view(*items, items.len() as nat), items.len() as nat) is None,
        },
{
    let ghost views = items_view(*items, items.len() as nat);
    proof {
        lemma_items_view(*items, items.len() as nat);
    }
    let mut out: Vec<FileEntry> = Vec::new();
    let mut i: usize = 0;
    while i < items.len()
        invariant
            i <= items.len(),
            views == items_view(*items, items.len() as nat),
            views.len() == items.len(),
            forall|k: int| 0 <= k < items.len() ==> #[trigger] views[k] == json_view(items[k]),
            entries_of(views, i as nat) == Some(out@.map_values(|f: FileEntry| f@)),
        decreases items.len() - i,
    {
        assert(views[i as int] == items[i as int]@);
        match entry_from_json(&items[i]) {
            Some(entry) => {
                let ghost before = out@.map_values(|f: FileEntry| f@);
                out.push(entry);
                proof {
                    assert(out@.map_values(|f: FileEntry| f@) =~= before.push(entry@));
                }
            },
            None => {
                proof {
                    assert(entry_of(views[i as int]) is None);
                    assert(entries_of(views, (i + 1) as nat) is None);
                    lemma_entries_of_fails(views, (i + 1) as nat, items.len() as nat);
                }
                return None;
            },
        }
        i = i + 1;
    }
    Some(out)
}

/// Reads nodes out of a list of values.
fn nodes_from(items: &Vec<Json>) -> (nodes: Option<Vec<ManifestNode>>)
    ensures
        match nodes {
            Some(n) => nodes_of(items_view(*items, items.len() as nat), items.len() as nat)
                == Some(nodes_view(n, n.len() as nat)),
            None => nodes_of(items_view(*items, items.len() as nat), items.len() as nat) is None,
        },
    decreases items, 0nat,
{
    let ghost views = items_view(*items, items.len() as nat);
    proof {
        lemma_items_view(*items, items.len() as nat);
    }
    let mut out: Vec<ManifestNode> = Vec::new();
    let mut i: usize = 0;
    while i < items.len()
        invariant
            i <= items.len(),
            out.len() == i,
            views == items_view(*items, items.len() as nat),
            views.len() == items.len(),
            forall|k: int| 0 <= k < items.len() ==> #[trigger] views[k] == json_view(items[k]),
            nodes_of(views, i as nat) matches Some(s) && s.len() == i && forall|k: int|
                0 <= k < i ==> #[trigger] s[k] == node_view(out[k]),
        decreases items.len() - i,
    {
        assert(views[i as int] == items[i as int]@);
        match node_from_json(&items[i]) {
            Some(node) => {
                out.push(node);
            },
            None => {
                proof {
                    assert(node_of(views[i as int]) is None);
                    assert(nodes_of(views, (i + 1) as nat) is None);
                    lemma_nodes_of_fails(views, (i + 1) as nat, items.len() as nat);
                }
                return None;
            },
        }
        i = i + 1;
    }
    proof {
        lemma_nodes_view(out, out.len() as nat);
        assert(nodes_of(views, items.len() as nat)->0 =~= nodes_view(out, out.len() as nat));
    }
    Some(out)
}

/// Reads a directory out of a value.
pub fn directory_from_json(json: &Json) -> (directory: Option<Directory>)
    ensures
        match directory {
            Some(d) => directory_of(json@) == Some(d@),
            None => directory_of(json@) is None,
        },
    decreases json, 0nat,
{
    match json {
        Json::Object(members) => {
            match (text_member(members, NAME_MEMBER), list_member(members, CHILDREN_MEMBER)) {
                (Some(name), Some(items)) => match nodes_from(items) {
                    Some(children) => {
                        proof {
                            lemma_items_view(*items, items.len() as nat);
                        }
                        Some(Directory { name: name.clone(), children })
                    },
                    None => {
                        proof {
                            lemma_items_view(*items, items.len() as nat);
                        }
                        None
                    },
                },
                _ => None,
            }
        },
        _ => None,
    }
}

/// Reads a node out of a value.
pub fn node_from_json(json: &Json) -> (node: Option<ManifestNode>)
    ensures
        match node {
            Some(n) => node_of(json@) == Some(n@),
            None => node_of(json@) is None,
        },
    decreases json, 1nat,
{
    match json {
        Json::Object(members) => match text_member(members, TYPE_MEMBER) {
            Some(kind) => {
                if same_text(kind.as_str(), FILE_TYPE) {
                    match entry_from_json(json) {
                        Some(entry) => Some(ManifestNode::File(entry)),
                        None => None,
                    }
                } else if same_text(kind.as_str(), DIRECTORY_TYPE) {
                    match directory_from_json(json) {
                        Some(directory) => Some(ManifestNode::Directory(directory)),
                        None => None,
                    }
                } else if same_text(kind.as_str(), ARCHIVE_TYPE) {
                    match (text_member(members, NAME_MEMBER), list_member(members, FILES_MEMBER)) {
                        (Some(name), Some(items)) => {
                            proof {
                                lemma_items_view(*items, items.len() as nat);
                            }
                            match entries_from(items) {
                                Some(files) => Some(
                                    ManifestNode::Archive(Archive { name: name.clone(), files }),
                                ),
                                None => None,
                            }
                        },
                        _ => None,
                    }
                } else {
                    None
                }
            },
            None => None,
        },
        _ => None,
    }
}

/// The failure of a document that does not say what it should.
pub open spec fn malformed(what: Seq<char>) -> FailureView {
    FailureView { kind: FailureKind::Parse, message: what, cause: Seq::empty() }
}

/// Reads the manifest out of a document: the directory at its root. Fails
/// with a failure of kind `Parse` if, and only if, the document does not
/// stand for a directory.
pub fn manifest_from_json(json: &Json) -> (manifest: Result<Directory, Failure>)
    ensures
        match manifest {
            Ok(d) => directory_of(json@) == Some(d@),
            Err(f) => directory_of(json@) is None && f@ == malformed("Malformed manifest"@),
        },
{
    match directory_from_json(json) {
        Some(directory) => Ok(directory),
        None => {
            proof {
                reveal_strlit("");
                assert(""@ =~= Seq::<char>::empty());
            }
            Err(Failure::new(FailureKind::Parse, "Malformed manifest", ""))
        },
    }
}

/// Reads the server's status out of a document. Fails with a failure of
/// kind `Parse` if, and only if, the document is neither of the two texts.
pub fn status_from_json(json: &Json) -> (status: Result<ServerStatus, Failure>)
    ensures
        match status {
            Ok(s) => status_of(json@) == Some(s),
            Err(f) => status_of(json@) is None && f@ == malformed("Malformed server status"@),
        },
{
    proof {
        reveal_strlit("");
        assert(""@ =~= Seq::<char>::empty());
    }
    match json {
        Json::Text(text) => {
            if same_text(text.as_str(), "Online") {
                Ok(ServerStatus::Online)
            } else if same_text(text.as_str(), "Maintenance") {
                Ok(ServerStatus::Maintenance)
            } else {
                Err(Failure::new(FailureKind::Parse, "Malformed server status", ""))
            }
        },
        _ => Err(Failure::new(FailureKind::Parse, "Malformed server status", "")),
    }
}

/// The tree of values of `serde_json`.
#[verifier::external_type_specification]
#[verifier::external_body]
pub struct ExValue(serde_json::Value);

/// What `serde_json::from_slice` makes of a document: its tree of values,
/// or the words of the error.
pub uninterp spec fn json_document(bytes: Seq<u8>) -> Result<JsonView, Seq<char>>;

/// Turns a tree of values of `serde_json` into one of this library, value
/// for value; a number is kept as `serde_json` writes it. Nothing is
/// claimed of the result.
#[verifier::external_body]
fn json_from_value(value: serde_json::Value) -> Json {
    match value {
        serde_json::Value::Null => Json::Null,
        serde_json::Value::Bool(b) => Json::Bool(b),
        serde_json::Value::Number(n) => Json::Number(n.to_string()),
        serde_json::Value::String(s) => Json::Text(s),
        serde_json::Value::Array(items) => Json::List(
            items.into_iter().map(json_from_value).collect(),
        ),
        serde_json::Value::Object(members) => Json::Object(
            members.into_iter().map(|(name, v)| Member { name, value: json_from_value(v) }).collect(),
        ),
    }
}

/// Reads a document with `serde_json::from_slice`. Nothing is claimed of
/// the result but that it is a function of the bytes.
#[verifier::external_body]
pub(crate) fn parse_json(bytes: &[u8]) -> (document: Result<Json, String>)
    ensures
        match document {
            Ok(json) => json_document(bytes@) == Ok::<JsonView, Seq<char>>(json@),
            Err(e) => json_document(bytes@) == Err::<JsonView, Seq<char>>(e@),
        },
{
    match serde_json::from_slice::<serde_json::Value>(bytes) {
        Ok(value) => Ok(json_from_value(value)),
        Err(why) => Err(why.to_string()),
    }
}

/// The failure of a document that is no JSON.
pub open spec fn syntax_failure(cause: Seq<char>) -> FailureView {
    FailureView { kind: FailureKind::Parse, message: "Malformed document"@, cause }
}

/// The manifest that a document holds, or why it holds none.
pub open spec fn manifest_of(document: Result<JsonView, Seq<char>>) -> Result<
    DirectoryView,
    FailureView,
> {
    match document {
        Ok(json) => match directory_of(json) {
            Some(directory) => Ok(directory),
            None => Err(malformed("Malformed manifest"@)),
        },
        Err(cause) => Err(syntax_failure(cause)),
    }
}

/// The status that a document holds, or why it holds none.
pub open spec fn server_status_of(document: Result<JsonView, Seq<char>>) -> Result<
    ServerStatus,
    FailureView,
> {
    match document {
        Ok(json) => match status_of(json) {
            Some(status) => Ok(status),
            None => Err(malformed("Malformed server status"@)),
        },
        Err(cause) => Err(syntax_failure(cause)),
    }
}

/// Reads the manifest out of what was made of a document.
pub fn manifest_from_document(document: Result<Json, String>) -> (manifest: Result<
    Directory,
    Failure,
>)
    ensures
        match manifest {
            Ok(d) => document matches Ok(json) && manifest_of(Ok(json@)) == Ok::<
                DirectoryView,
                FailureView,
            >(d@),
            Err(f) => match document {
                Ok(json) => manifest_of(Ok(json@)) == Err::<DirectoryView, FailureView>(f@),
                Err(e) => manifest_of(Err(e@)) == Err::<DirectoryView, FailureView>(f@),
            },
        },
{
    match document {
        Ok(json) => manifest_from_json(&json),
        Err(cause) => Err(
            Failure {
                kind: FailureKind::Parse,
                message: "Malformed document".to_owned(),
                cause,
            },
        ),
    }
}

/// Reads the server's status out of what was made of a document.
pub fn status_from_document(document: Result<Json, String>) -> (status: Result<
    ServerStatus,
    Failure,
>)
    ensures
        match status {
            Ok(s) => document matches Ok(json) && server_status_of(Ok(json@)) == Ok::<
                ServerStatus,
                FailureView,
            >(s),
            Err(f) => match document {
                Ok(json) => server_status_of(Ok(json@)) == Err::<ServerStatus, FailureView>(f@),
                Err(e) => server_status_of(Err(e@)) == Err::<ServerStatus, FailureView>(f@),
            },
        },
{
    match document {
        Ok(json) => status_from_json(&json),
        Err(cause) => Err(
            Failure {
                kind: FailureKind::Parse,
                message: "Malformed document".to_owned(),
                cause,
            },
        ),
    }
}

/// Reads the manifest out of the bytes of a document in JSON. Fails with a
/// failure of kind `Parse` if the bytes are no JSON, or if the document
/// does not stand for a directory.
pub fn parse_manifest(bytes: &[u8]) -> (manifest: Result<Directory, Failure>)
    ensures
        match manifest {
            Ok(d) => manifest_of(json_document(bytes@)) == Ok::<DirectoryView, FailureView>(d@),
            Err(f) => manifest_of(json_document(bytes@)) == Err::<DirectoryView, FailureView>(f@),
        },
{
    manifest_from_document(parse_json(bytes))
}

/// Reads the server's status out of the bytes of a document in JSON. Fails
/// with a failure of kind `Parse` if the bytes are no JSON, or if the
/// document is neither of the two texts.
pub fn parse_status(bytes: &[u8]) -> (status: Result<ServerStatus, Failure>)
    ensures
        match status {
            Ok(s) => server_status_of(json_document(bytes@)) == Ok::<ServerStatus, FailureView>(s),
            Err(f) => server_status_of(json_document(bytes@)) == Err::<ServerStatus, FailureView>(
                f@,
            ),
        },
{
    status_from_document(parse_json(bytes))
}

/// A member whose value is a text.
pub open spec fn text_member_of(name: Seq<char>, text: Seq<char>) -> MemberView {
    MemberView { name, value: JsonView::Text(text) }
}

/// An entry written as an object.
pub open spec fn entry_json(entry: EntryView) -> JsonView {
    JsonView::Object(
        seq![
            text_member_of(NAME_MEMBER@, entry.name),
            text_member_of(DIGEST_MEMBER@, entry.digest),
        ],
    )
}

/// The first `upto` of some entries, each written as an object.
pub open spec fn entries_json(entries: Seq<EntryView>, upto: nat) -> Seq<JsonView>
    decreases upto,
{
    if upto == 0 || upto > entries.len() {
        Seq::empty()
    } else {
        entries_json(entries, (upto - 1) as nat).push(entry_json(entries[upto - 1]))
    }
}

/// A node written as an object: its kind first, then its name, then what
/// it holds.
pub open spec fn node_json(node: NodeView) -> JsonView
    decreases node, 0nat,
{
    match node {
        NodeView::File(entry) => JsonView::Object(
            seq![
                text_member_of(TYPE_MEMBER@, FILE_TYPE@),
                text_member_of(NAME_MEMBER@, entry.name),
                text_member_of(DIGEST_MEMBER@, entry.digest),
            ],
        ),
        NodeView::Directory(d) => JsonView::Object(
            seq![
                text_member_of(TYPE_MEMBER@, DIRECTORY_TYPE@),
                text_member_of(NAME_MEMBER@, d.name),
                MemberView {
                    name: CHILDREN_MEMBER@,
                    value: JsonView::List(nodes_json(d.children, d.children.len())),
                },
            ],
        ),
        NodeView::Archive(a) => JsonView::Object(
            seq![
                text_member_of(TYPE_MEMBER@, ARCHIVE_TYPE@),
                text_member_of(NAME_MEMBER@, a.name),
                MemberView {
                    name: FILES_MEMBER@,
                    value: JsonView::List(entries_json(a.files, a.files.len())),
                },
            ],
        ),
    }
}

/// The first `upto` of some nodes, each written as an object.
pub open spec fn nodes_json(nodes: Seq<NodeView>, upto: nat) -> Seq<JsonView>
    decreases nodes, upto,
{
    if upto == 0 || upto > nodes.len() {
        Seq::empty()
    } else {
        nodes_json(nodes, (upto - 1) as nat).push(node_json(nodes[upto - 1]))
    }
}

/// The names of the members and of the kinds are what they are written as.
proof fn lemma_names()
    ensures
        TYPE_MEMBER@ == seq!['t', 'y', 'p', 'e'],
        NAME_MEMBER@ == seq!['n', 'a', 'm', 'e'],
        DIGEST_MEMBER@ == seq!['d', 'i', 'g', 'e', 's', 't'],
        CHILDREN_MEMBER@ == seq!['c', 'h', 'i', 'l', 'd', 'r', 'e', 'n'],
        FILES_MEMBER@ == seq!['f', 'i', 'l', 'e', 's'],
        FILE_TYPE@ == seq!['f', 'i', 'l', 'e'],
        DIRECTORY_TYPE@ == seq!['d', 'i', 'r', 'e', 'c', 't', 'o', 'r', 'y'],
        ARCHIVE_TYPE@ == seq!['a', 'r', 'c', 'h', 'i', 'v', 'e'],
{
    reveal_strlit("type");
    reveal_strlit("name");
    reveal_strlit("digest");
    reveal_strlit("children");
    reveal_strlit("files");
    reveal_strlit("file");
    reveal_strlit("directory");
    reveal_strlit("archive");
    assert(TYPE_MEMBER@ =~= seq!['t', 'y', 'p', 'e']);
    assert(NAME_MEMBER@ =~= seq!['n', 'a', 'm', 'e']);
    assert(DIGEST_MEMBER@ =~= seq!['d', 'i', 'g', 'e', 's', 't']);
    assert(CHILDREN_MEMBER@ =~= seq!['c', 'h', 'i', 'l', 'd', 'r', 'e', 'n']);
    assert(FILES_MEMBER@ =~= seq!['f', 'i', 'l', 'e', 's']);
    assert(FILE_TYPE@ =~= seq!['f', 'i', 'l', 'e']);
    assert(DIRECTORY_TYPE@ =~= seq!['d', 'i', 'r', 'e', 'c', 't', 'o', 'r', 'y']);
    assert(ARCHIVE_TYPE@ =~= seq!['a', 'r', 'c', 'h', 'i', 'v', 'e']);
}

/// The names of the members differ from one another, and so do the kinds.
pub proof fn lemma_names_differ()
    ensures
        TYPE_MEMBER@ != NAME_MEMBER@,
        TYPE_MEMBER@ != DIGEST_MEMBER@,
        TYPE_MEMBER@ != CHILDREN_MEMBER@,
        TYPE_MEMBER@ != FILES_MEMBER@,
        NAME_MEMBER@ != DIGEST_MEMBER@,
        NAME_MEMBER@ != CHILDREN_MEMBER@,
        NAME_MEMBER@ != FILES_MEMBER@,
        FILE_TYPE@ != DIRECTORY_TYPE@,
        FILE_TYPE@ != ARCHIVE_TYPE@,
        DIRECTORY_TYPE@ != ARCHIVE_TYPE@,
{
    lemma_names();
    assert(TYPE_MEMBER@[0] != NAME_MEMBER@[0]);
    assert(TYPE_MEMBER@.len() != DIGEST_MEMBER@.len());
    assert(TYPE_MEMBER@.len() != CHILDREN_MEMBER@.len());
    assert(TYPE_MEMBER@.len() != FILES_MEMBER@.len());
    assert(NAME_MEMBER@.len() != DIGEST_MEMBER@.len());
    assert(NAME_MEMBER@.len() != CHILDREN_MEMBER@.len());
    assert(NAME_MEMBER@.len() != FILES_MEMBER@.len());
    assert(FILE_TYPE@.len() != DIRECTORY_TYPE@.len());
    assert(FILE_TYPE@.len() != ARCHIVE_TYPE@.len());
    assert(DIRECTORY_TYPE@.len() != ARCHIVE_TYPE@.len());
}

/// Entries that are written as objects are read back as they were.
pub proof fn lemma_entries_round_trip(entries: Seq<EntryView>, upto: nat)
    requires
        upto <= entries.len(),
    ensures
        entries_json(entries, upto).len() == upto,
        entries_of(entries_json(entries, upto), upto) == Some(entries.take(upto as int)),
    decreases upto,
{
    lemma_names_differ();
    if upto == 0 {
        assert(entries.take(0) =~= Seq::<EntryView>::empty());
    } else {
        lemma_entries_round_trip(entries, (upto - 1) as nat);
        let shorter = entries_json(entries, (upto - 1) as nat);
        let longer = entries_json(entries, upto);
        lemma_entries_of_prefix(shorter, longer, (upto - 1) as nat);
        let entry = entries[upto - 1];
        let members = seq![
            text_member_of(NAME_MEMBER@, entry.name),
            text_member_of(DIGEST_MEMBER@, entry.digest),
        ];
        assert(member_of(members, DIGEST_MEMBER@, 1) == Some(JsonView::Text(entry.digest)));
        assert(entry_of(entry_json(entry)) == Some(entry));
        assert(entries.take(upto as int) =~= entries.take(upto - 1).push(entry));
    }
}

/// What the first items of a list stand for does not depend on the items
/// that follow them.
pub proof fn lemma_entries_of_prefix(shorter: Seq<JsonView>, longer: Seq<JsonView>, upto: nat)
    requires
        upto <= shorter.len() <= longer.len(),
        forall|i: int| 0 <= i < shorter.len() ==> shorter[i] == longer[i],
    ensures
        entries_of(shorter, upto) == entries_of(longer, upto),
    decreases upto,
{
    if upto > 0 {
        lemma_entries_of_prefix(shorter, longer, (upto - 1) as nat);
    }
}

/// The same for nodes.
pub proof fn lemma_nodes_of_prefix(shorter: Seq<JsonView>, longer: Seq<JsonView>, upto: nat)
    requires
        upto <= shorter.len() <= longer.len(),
        forall|i: int| 0 <= i < shorter.len() ==> shorter[i] == longer[i],
    ensures
        nodes_of(shorter, upto) == nodes_of(longer, upto),
    decreases upto,
{
    if upto > 0 {
        lemma_nodes_of_prefix(shorter, longer, (upto - 1) as nat);
    }
}

/// Every manifest can be written as a document that is read back as the
/// same manifest: a node that is written as an object, with its kind, its
/// name and what it holds, is read back as it was.
pub proof fn lemma_node_round_trip(node: NodeView)
    ensures
        node_of(node_json(node)) == Some(node),
    decreases node, 1nat,
{
    lemma_names_differ();
    match node {
        NodeView::File(entry) => {
            let members = seq![
                text_member_of(TYPE_MEMBER@, FILE_TYPE@),
                text_member_of(NAME_MEMBER@, entry.name),
                text_member_of(DIGEST_MEMBER@, entry.digest),
            ];
            assert(member_of(members, NAME_MEMBER@, 1) == Some(JsonView::Text(entry.name)));
            assert(member_of(members, DIGEST_MEMBER@, 2) == Some(JsonView::Text(entry.digest)));
            assert(member_of(members, DIGEST_MEMBER@, 1) == Some(JsonView::Text(entry.digest)));
        },
        NodeView::Directory(d) => {
            lemma_directory_round_trip(d);
        },
        NodeView::Archive(a) => {
            let items = entries_json(a.files, a.files.len());
            let members = seq![
                text_member_of(TYPE_MEMBER@, ARCHIVE_TYPE@),
                text_member_of(NAME_MEMBER@, a.name),
                MemberView { name: FILES_MEMBER@, value: JsonView::List(items) },
            ];
            assert(member_of(members, NAME_MEMBER@, 1) == Some(JsonView::Text(a.name)));
            assert(member_of(members, FILES_MEMBER@, 2) == Some(JsonView::List(items)));
            assert(member_of(members, FILES_MEMBER@, 1) == Some(JsonView::List(items)));
            lemma_entries_round_trip(a.files, a.files.len());
            assert(a.files.take(a.files.len() as int) =~= a.files);
        },
    }
}

/// A directory that is written as an object is read back as it was, as a
/// node and as the root of a manifest.
pub proof fn lemma_directory_round_trip(d: DirectoryView)
    ensures
        node_of(node_json(NodeView::Directory(d))) == Some(NodeView::Directory(d)),
        directory_of(node_json(NodeView::Directory(d))) == Some(d),
    decreases NodeView::Directory(d), 0nat,
{
    lemma_names_differ();
    let items = nodes_json(d.children, d.children.len());
    let members = seq![
        text_member_of(TYPE_MEMBER@, DIRECTORY_TYPE@),
        text_member_of(NAME_MEMBER@, d.name),
        MemberView { name: CHILDREN_MEMBER@, value: JsonView::List(items) },
    ];
    assert(member_of(members, NAME_MEMBER@, 1) == Some(JsonView::Text(d.name)));
    assert(member_of(members, CHILDREN_MEMBER@, 2) == Some(JsonView::List(items)));
    assert(member_of(members, CHILDREN_MEMBER@, 1) == Some(JsonView::List(items)));
    lemma_nodes_round_trip(d.children, d.children.len());
    assert(d.children.take(d.children.len() as int) =~= d.children);
}

/// Nodes that are written as objects are read back as they were.
pub proof fn lemma_nodes_round_trip(nodes: Seq<NodeView>, upto: nat)
    requires
        upto <= nodes.len(),
    ensures
        nodes_json(nodes, upto).len() == upto,
        nodes_of(nodes_json(nodes, upto), upto) == Some(nodes.take(upto as int)),
    decreases nodes, upto,
{
    if upto == 0 {
        assert(nodes.take(0) =~= Seq::<NodeView>::empty());
    } else {
        lemma_nodes_round_trip(nodes, (upto - 1) as nat);
        let shorter = nodes_json(nodes, (upto - 1) as nat);
        let longer = nodes_json(nodes, upto);
        lemma_nodes_of_prefix(shorter, longer, (upto - 1) as nat);
        lemma_node_round_trip(nodes[upto - 1]);
        assert(nodes.take(upto as int) =~= nodes.take(upto - 1).push(nodes[upto - 1]));
    }
}

} // verus!
