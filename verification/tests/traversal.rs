use aeco_launcher::manifest::{Archive, Directory, FileEntry, ManifestNode};
use aeco_launcher::traversal::{walk, Visit};

fn entry(name: &str, digest: &str) -> FileEntry {
    FileEntry { name: name.to_string(), digest: digest.to_string() }
}

fn directory(name: &str, children: Vec<ManifestNode>) -> Directory {
    Directory { name: name.to_string(), children }
}

#[test]
fn the_walk_through_an_empty_subtree_is_empty() {
    assert_eq!(walk(&directory("all", vec![])), vec![]);
}

#[test]
fn the_walk_visits_the_children_in_order() {
    let tree = directory(
        "all",
        vec![
            ManifestNode::File(entry("a", "1")),
            ManifestNode::Directory(directory(
                "sub",
                vec![
                    ManifestNode::Archive(Archive {
                        name: "data".to_string(),
                        files: vec![entry("x", "2"), entry("y", "3")],
                    }),
                    ManifestNode::Directory(directory("empty", vec![])),
                    ManifestNode::File(entry("b", "4")),
                ],
            )),
            ManifestNode::Archive(Archive { name: "none".to_string(), files: vec![] }),
            ManifestNode::File(entry("c", "5")),
        ],
    );
    assert_eq!(
        walk(&tree),
        vec![
            Visit::File(entry("a", "1")),
            Visit::EnterDirectory("sub".to_string()),
            Visit::OpenArchive("data".to_string()),
            Visit::Entry(entry("x", "2")),
            Visit::Entry(entry("y", "3")),
            Visit::CloseArchive,
            Visit::EnterDirectory("empty".to_string()),
            Visit::LeaveDirectory,
            Visit::File(entry("b", "4")),
            Visit::LeaveDirectory,
            Visit::OpenArchive("none".to_string()),
            Visit::CloseArchive,
            Visit::File(entry("c", "5")),
        ]
    );
}

#[test]
fn the_walk_stops_once_for_each_file_to_check() {
    let tree = directory(
        "all",
        vec![
            ManifestNode::File(entry("a", "1")),
            ManifestNode::Archive(Archive {
                name: "data".to_string(),
                files: vec![entry("x", "2"), entry("y", "3")],
            }),
        ],
    );
    let stops = walk(&tree)
        .iter()
        .filter(|visit| matches!(visit, Visit::File(_) | Visit::Entry(_)))
        .count();
    assert_eq!(stops, 3);
    assert_eq!(stops, tree.total_files());
}
