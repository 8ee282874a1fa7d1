use aeco_launcher::error::FailureKind;
use aeco_launcher::urls::{
    archive_segment, check_url, directory_segment, resolve, ServerUrls, ARCHIVE_SUFFIX, BASE_DIR,
    META_DIR, PATCHLIST, PATCH_DIR, STATUS,
};

#[test]
fn the_layout_below_a_root() {
    let urls = ServerUrls::new("https://patch.example.com/", "game.zip").expect("a layout");
    assert_eq!(urls.server_url, "https://patch.example.com/");
    assert_eq!(urls.game_base_url, "https://patch.example.com/base/");
    assert_eq!(urls.game_zip_url, "https://patch.example.com/base/game.zip");
    assert_eq!(urls.patchlist_url, "https://patch.example.com/meta/patchlist.json");
    assert_eq!(urls.status_url, "https://patch.example.com/meta/status.json");
    assert_eq!(urls.patch_url, "https://patch.example.com/patch/");
}

#[test]
fn the_layout_below_a_root_without_a_trailing_separator() {
    let urls = ServerUrls::new("http://example.com:8080/eco", "base.zip").expect("a layout");
    assert_eq!(urls.server_url, "http://example.com:8080/eco");
    assert_eq!(urls.game_base_url, "http://example.com:8080/base/");
    assert_eq!(urls.patch_url, "http://example.com:8080/patch/");
}

#[test]
fn the_layout_below_a_directory() {
    let urls = ServerUrls::new("http://example.com/eco/", "base.zip").expect("a layout");
    assert_eq!(urls.game_zip_url, "http://example.com/eco/base/base.zip");
    assert_eq!(urls.status_url, "http://example.com/eco/meta/status.json");
    assert_eq!(urls.platform_url("all"), Ok("http://example.com/eco/patch/all/".to_string()));
    assert_eq!(
        urls.platform_url("linux-x86_64"),
        Ok("http://example.com/eco/patch/linux-x86_64/".to_string())
    );
}

#[test]
fn a_root_that_is_no_url_has_no_layout() {
    let failure = ServerUrls::new("patch.example.com", "game.zip").expect_err("no layout");
    assert_eq!(failure.kind, FailureKind::Parse);
    assert_eq!(failure.message, "Invalid URL");
    assert_eq!(failure.cause, "relative URL without a base");
    assert!(ServerUrls::new("", "game.zip").is_err());
}

#[test]
fn the_parts_of_the_layout() {
    assert_eq!(BASE_DIR, "base/");
    assert_eq!(META_DIR, "meta/");
    assert_eq!(PATCHLIST, "patchlist.json");
    assert_eq!(STATUS, "status.json");
    assert_eq!(PATCH_DIR, "patch/");
    assert_eq!(ARCHIVE_SUFFIX, ".archive/");
}

#[test]
fn segments_of_directories_and_archives() {
    assert_eq!(directory_segment("data"), "data/");
    assert_eq!(directory_segment(""), "/");
    assert_eq!(archive_segment("data"), "data.archive/");
    assert_eq!(archive_segment("X"), "X.archive/");
}

#[test]
fn a_join_below_a_directory_keeps_the_directory() {
    assert_eq!(
        resolve("https://example.com/patch/all/", "a.txt"),
        Ok("https://example.com/patch/all/a.txt".to_string())
    );
    assert_eq!(
        resolve("https://example.com/patch/all/", "data/"),
        Ok("https://example.com/patch/all/data/".to_string())
    );
}

#[test]
fn a_join_beside_a_file_replaces_the_file() {
    assert_eq!(
        resolve("https://example.com/patch/all", "a.txt"),
        Ok("https://example.com/patch/a.txt".to_string())
    );
}

#[test]
fn a_join_writes_the_name_as_a_url_does() {
    assert_eq!(
        resolve("https://example.com/patch/", "a b.txt"),
        Ok("https://example.com/patch/a%20b.txt".to_string())
    );
}

#[test]
fn a_join_with_a_base_that_is_no_url_fails() {
    let failure = resolve("nonsense", "a.txt").expect_err("no URL");
    assert_eq!(failure.kind, FailureKind::Parse);
    assert_eq!(failure.message, "Invalid URL");
}

#[test]
fn the_outcome_of_a_resolution_is_kept() {
    assert_eq!(check_url(Ok("https://example.com/".to_string())), Ok("https://example.com/".to_string()));
    let failure = check_url(Err("empty host".to_string())).expect_err("a failure");
    assert_eq!(failure.kind, FailureKind::Parse);
    assert_eq!(failure.message, "Invalid URL");
    assert_eq!(failure.cause, "empty host");
}
