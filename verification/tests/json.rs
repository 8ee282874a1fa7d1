use aeco_launcher::attempt::ServerStatus;
use aeco_launcher::error::FailureKind;
use aeco_launcher::json::{
    directory_from_json, entry_from_json, manifest_from_document, manifest_from_json,
    node_from_json, parse_manifest, parse_status, status_from_document, status_from_json, Json,
    Member,
};
use aeco_launcher::manifest::{Archive, Directory, FileEntry, ManifestNode};

fn text(value: &str) -> Json {
    Json::Text(value.to_string())
}

fn object(members: Vec<(&str, Json)>) -> Json {
    Json::Object(
        members.into_iter().map(|(name, value)| Member { name: name.to_string(), value }).collect(),
    )
}

fn entry(name: &str, digest: &str) -> FileEntry {
    FileEntry { name: name.to_string(), digest: digest.to_string() }
}

#[test]
fn a_file_is_read_out_of_an_object() {
    let json = object(vec![("type", text("file")), ("name", text("a.txt")), ("digest", text("X"))]);
    assert_eq!(node_from_json(&json), Some(ManifestNode::File(entry("a.txt", "X"))));
}

#[test]
fn the_order_of_the_members_does_not_count() {
    let json = object(vec![
        ("digest", text("X")),
        ("size", Json::Number("12".to_string())),
        ("name", text("a.txt")),
        ("type", text("file")),
    ]);
    assert_eq!(node_from_json(&json), Some(ManifestNode::File(entry("a.txt", "X"))));
}

#[test]
fn a_directory_is_read_with_what_is_below_it() {
    let json = object(vec![
        ("type", text("directory")),
        ("name", text("all")),
        (
            "children",
            Json::List(vec![
                object(vec![("type", text("file")), ("name", text("a")), ("digest", text("1"))]),
                object(vec![
                    ("type", text("archive")),
                    ("name", text("data")),
                    (
                        "files",
                        Json::List(vec![
                            object(vec![("name", text("x")), ("digest", text("2"))]),
                            object(vec![("name", text("y")), ("digest", text("3"))]),
                        ]),
                    ),
                ]),
                object(vec![
                    ("type", text("directory")),
                    ("name", text("empty")),
                    ("children", Json::List(vec![])),
                ]),
            ]),
        ),
    ]);
    let expected = Directory {
        name: "all".to_string(),
        children: vec![
            ManifestNode::File(entry("a", "1")),
            ManifestNode::Archive(Archive {
                name: "data".to_string(),
                files: vec![entry("x", "2"), entry("y", "3")],
            }),
            ManifestNode::Directory(Directory { name: "empty".to_string(), children: vec![] }),
        ],
    };
    assert_eq!(directory_from_json(&json), Some(expected));
}

#[test]
fn what_is_malformed_is_no_node() {
    assert_eq!(node_from_json(&Json::Null), None);
    assert_eq!(node_from_json(&text("file")), None);
    assert_eq!(node_from_json(&Json::List(vec![])), None);
    assert_eq!(node_from_json(&object(vec![])), None);
    assert_eq!(node_from_json(&object(vec![("name", text("a")), ("digest", text("1"))])), None);
    assert_eq!(
        node_from_json(&object(vec![("type", text("link")), ("name", text("a"))])),
        None
    );
    assert_eq!(
        node_from_json(&object(vec![("type", text("file")), ("name", text("a"))])),
        None
    );
    assert_eq!(
        node_from_json(&object(vec![
            ("type", text("file")),
            ("name", text("a")),
            ("digest", Json::Number("1".to_string())),
        ])),
        None
    );
    assert_eq!(
        node_from_json(&object(vec![
            ("type", text("directory")),
            ("name", text("a")),
            ("children", text("none")),
        ])),
        None
    );
    assert_eq!(
        node_from_json(&object(vec![
            ("type", text("directory")),
            ("name", text("a")),
            ("children", Json::List(vec![Json::Bool(true)])),
        ])),
        None
    );
    assert_eq!(
        node_from_json(&object(vec![
            ("type", text("archive")),
            ("name", text("a")),
            ("files", Json::List(vec![object(vec![("name", text("x"))])])),
        ])),
        None
    );
}

#[test]
fn an_entry_needs_a_name_and_a_digest() {
    assert_eq!(
        entry_from_json(&object(vec![("name", text("x")), ("digest", text("2"))])),
        Some(entry("x", "2"))
    );
    assert_eq!(entry_from_json(&object(vec![("name", text("x"))])), None);
    assert_eq!(entry_from_json(&object(vec![("digest", text("2"))])), None);
    assert_eq!(entry_from_json(&text("x")), None);
}

#[test]
fn the_manifest_is_the_directory_at_the_root() {
    let json = object(vec![("name", text("")), ("children", Json::List(vec![]))]);
    assert_eq!(
        manifest_from_json(&json),
        Ok(Directory { name: String::new(), children: vec![] })
    );
    let failure = manifest_from_json(&Json::Null).expect_err("no manifest");
    assert_eq!(failure.kind, FailureKind::Parse);
    assert_eq!(failure.message, "Malformed manifest");
}

#[test]
fn the_status_is_one_of_two_texts() {
    assert_eq!(status_from_json(&text("Online")), Ok(ServerStatus::Online));
    assert_eq!(status_from_json(&text("Maintenance")), Ok(ServerStatus::Maintenance));
    for other in [text("online"), text(""), text("Offline"), Json::Null, Json::Bool(true)] {
        let failure = status_from_json(&other).expect_err("no status");
        assert_eq!(failure.kind, FailureKind::Parse);
        assert_eq!(failure.message, "Malformed server status");
    }
}

#[test]
fn a_manifest_is_parsed_from_bytes() {
    let bytes = br#"{
        "name": "root",
        "children": [
            {"type": "directory", "name": "all", "children": [
                {"type": "file", "name": "a.txt", "digest": "X"}
            ]},
            {"type": "archive", "name": "data", "files": [{"name": "e", "digest": "Y"}]}
        ]
    }"#;
    let expected = Directory {
        name: "root".to_string(),
        children: vec![
            ManifestNode::Directory(Directory {
                name: "all".to_string(),
                children: vec![ManifestNode::File(entry("a.txt", "X"))],
            }),
            ManifestNode::Archive(Archive { name: "data".to_string(), files: vec![entry("e", "Y")] }),
        ],
    };
    assert_eq!(parse_manifest(bytes), Ok(expected));
}

#[test]
fn bytes_that_are_no_json_are_no_manifest() {
    let failure = parse_manifest(b"{\"name\": ").expect_err("no JSON");
    assert_eq!(failure.kind, FailureKind::Parse);
    assert_eq!(failure.message, "Malformed document");
    assert!(!failure.cause.is_empty());
    let failure = parse_manifest(b"").expect_err("no JSON");
    assert_eq!(failure.message, "Malformed document");
}

#[test]
fn json_that_is_no_directory_is_no_manifest() {
    let failure = parse_manifest(b"[1, 2, 3]").expect_err("no directory");
    assert_eq!(failure.kind, FailureKind::Parse);
    assert_eq!(failure.message, "Malformed manifest");
    let failure = parse_manifest(b"{\"name\": \"root\"}").expect_err("no children");
    assert_eq!(failure.message, "Malformed manifest");
}

#[test]
fn the_status_is_parsed_from_bytes() {
    assert_eq!(parse_status(b"\"Online\""), Ok(ServerStatus::Online));
    assert_eq!(parse_status(b"  \"Maintenance\"\n"), Ok(ServerStatus::Maintenance));
    let failure = parse_status(b"\"Closed\"").expect_err("no status");
    assert_eq!(failure.message, "Malformed server status");
    let failure = parse_status(b"Online").expect_err("no JSON");
    assert_eq!(failure.message, "Malformed document");
}

#[test]
fn a_document_that_could_not_be_read_keeps_the_words_of_the_error() {
    let failure = manifest_from_document(Err("EOF while parsing".to_string())).expect_err("none");
    assert_eq!(failure.kind, FailureKind::Parse);
    assert_eq!(failure.message, "Malformed document");
    assert_eq!(failure.cause, "EOF while parsing");
    let failure = status_from_document(Err("bad".to_string())).expect_err("none");
    assert_eq!(failure.cause, "bad");
    assert_eq!(status_from_document(Ok(text("Online"))), Ok(ServerStatus::Online));
}
