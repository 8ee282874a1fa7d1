use aeco_launcher::version::{
    git_hash, pkg_version, short_hash, tree_state, version_summary, BuildInfo, TreeState,
};

fn info(version: Option<&str>, hash: Option<&str>, changes: Option<&str>) -> BuildInfo {
    BuildInfo {
        pkg_version: version.map(|v| v.to_string()),
        git_hash: hash.map(|v| v.to_string()),
        git_changes: changes.map(|v| v.to_string()),
    }
}

#[test]
fn summary_of_a_dirty_build() {
    let build = info(Some("0.1.0"), Some("2cfe000a1b2c3d4e5f"), Some("1"));
    assert_eq!(version_summary(&build), "0.1.0-2cfe000-dirty");
}

#[test]
fn summary_of_a_clean_build() {
    let build = info(Some("0.1.0"), Some("2cfe000a1b2c3d4e5f"), Some("0"));
    assert_eq!(version_summary(&build), "0.1.0-2cfe000");
}

#[test]
fn summary_without_any_piece_is_empty() {
    let build = info(None, None, None);
    assert_eq!(version_summary(&build), "");
}

#[test]
fn summary_with_hash_only() {
    let build = info(None, Some("abc"), None);
    assert_eq!(version_summary(&build), "abc");
}

#[test]
fn summary_with_dirty_only() {
    let build = info(None, None, Some("3"));
    assert_eq!(version_summary(&build), "dirty");
}

#[test]
fn short_hash_keeps_seven_bytes() {
    let build = info(None, Some("0123456789abcdef"), None);
    assert_eq!(short_hash(&build), Some("0123456"));
}

#[test]
fn short_hash_of_a_short_hash_is_the_hash() {
    let build = info(None, Some("0123"), None);
    assert_eq!(short_hash(&build), Some("0123"));
    let exact = info(None, Some("0123456"), None);
    assert_eq!(short_hash(&exact), Some("0123456"));
}

#[test]
fn short_hash_without_hash() {
    let build = info(Some("1.0.0"), None, None);
    assert_eq!(short_hash(&build), None);
    assert_eq!(git_hash(&build), None);
    assert_eq!(pkg_version(&build), Some("1.0.0"));
}

#[test]
fn tree_state_follows_the_changes() {
    assert_eq!(tree_state(&info(None, None, Some("0"))), Some(TreeState::Clean));
    assert_eq!(tree_state(&info(None, None, Some("1"))), Some(TreeState::Dirty));
    assert_eq!(tree_state(&info(None, None, Some("00"))), Some(TreeState::Dirty));
    assert_eq!(tree_state(&info(None, None, Some(""))), Some(TreeState::Dirty));
    assert_eq!(tree_state(&info(None, None, None)), None);
}
