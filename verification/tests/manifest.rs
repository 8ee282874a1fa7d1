use aeco_launcher::manifest::{
    count_leaf_files, find_child_directory, Archive, Directory, FileEntry, ManifestNode,
};

fn entry(name: &str, digest: &str) -> FileEntry {
    FileEntry { name: name.to_string(), digest: digest.to_string() }
}

fn file(name: &str, digest: &str) -> ManifestNode {
    ManifestNode::File(entry(name, digest))
}

fn directory(name: &str, children: Vec<ManifestNode>) -> Directory {
    Directory { name: name.to_string(), children }
}

fn archive(name: &str, files: Vec<FileEntry>) -> ManifestNode {
    ManifestNode::Archive(Archive { name: name.to_string(), files })
}

#[test]
fn a_file_counts_once() {
    assert_eq!(count_leaf_files(&file("a.txt", "X")), 1);
}

#[test]
fn an_archive_counts_its_entries() {
    let node = archive("data", vec![entry("a", "1"), entry("b", "2"), entry("c", "3")]);
    assert_eq!(count_leaf_files(&node), 3);
    assert_eq!(count_leaf_files(&archive("empty", vec![])), 0);
}

#[test]
fn a_directory_counts_files_and_entries_below_it() {
    let tree = ManifestNode::Directory(directory(
        "all",
        vec![
            file("a.txt", "X"),
            ManifestNode::Directory(directory(
                "sub",
                vec![
                    file("b.txt", "Y"),
                    archive("data", vec![entry("one", "1"), entry("two", "2")]),
                    ManifestNode::Directory(directory("empty", vec![])),
                ],
            )),
            archive("more", vec![entry("three", "3")]),
            file("c.txt", "Z"),
        ],
    ));
    assert_eq!(count_leaf_files(&tree), 6);
}

#[test]
fn an_empty_directory_counts_nothing() {
    let tree = directory("all", vec![]);
    assert_eq!(tree.total_files(), 0);
    assert_eq!(count_leaf_files(&ManifestNode::Directory(tree)), 0);
}

#[test]
fn total_files_agrees_with_the_count_of_the_node() {
    let tree = directory(
        "all",
        vec![file("a", "1"), archive("arc", vec![entry("x", "1"), entry("y", "2")])],
    );
    assert_eq!(tree.total_files(), 3);
}

#[test]
fn a_child_directory_is_found_by_its_exact_name() {
    let root = directory(
        "",
        vec![
            file("all", "X"),
            ManifestNode::Directory(directory("linux-x86_64", vec![file("a", "1")])),
            ManifestNode::Directory(directory("all", vec![file("b", "2"), file("c", "3")])),
            ManifestNode::Directory(directory("all", vec![])),
        ],
    );
    let found = find_child_directory(&root, "all").expect("there is a directory called all");
    assert_eq!(found.children.len(), 2);
    let host = find_child_directory(&root, "linux-x86_64").expect("there is one for the host");
    assert_eq!(host.children.len(), 1);
    assert!(find_child_directory(&root, "windows-x86_64").is_none());
    assert!(find_child_directory(&root, "ALL").is_none());
    assert!(find_child_directory(&root, "al").is_none());
}

#[test]
fn only_direct_children_are_looked_at() {
    let root = directory(
        "",
        vec![ManifestNode::Directory(directory(
            "outer",
            vec![ManifestNode::Directory(directory("inner", vec![]))],
        ))],
    );
    assert!(find_child_directory(&root, "inner").is_none());
    assert!(find_child_directory(&root, "outer").is_some());
}

#[test]
fn a_file_or_an_archive_is_no_directory() {
    let root = directory("", vec![file("all", "X"), archive("all", vec![])]);
    assert!(find_child_directory(&root, "all").is_none());
}

#[test]
fn a_copy_of_an_entry_is_equal_to_it() {
    let first = entry("a.txt", "X");
    assert_eq!(first.duplicate(), first);
}
