//! The layout of the server: where the package, the manifest, the status and
//! the patches are found.

use vstd::prelude::*;
use vstd::string::*;
use crate::error::{Failure, FailureKind, FailureView};

verus! {

/// Directory of the packaged installation, below the server's root.
pub const BASE_DIR: &'static str = "base/";

/// Directory of the manifest and of the server's status, below the root.
pub const META_DIR: &'static str = "meta/";

/// The manifest, below `META_DIR`.
pub const PATCHLIST: &'static str = "patchlist.json";

/// The server's status, below `META_DIR`.
pub const STATUS: &'static str = "status.json";

/// Directory of the patches, below the root: one subdirectory per platform.
pub const PATCH_DIR: &'static str = "patch/";

/// What is appended to the name of an archive to get its URL segment.
pub const ARCHIVE_SUFFIX: &'static str = ".archive/";

/// What is appended to the name of a directory to get its URL segment, so
/// that further joins resolve below it and do not replace it.
pub const SEPARATOR: &'static str = "/";

/// What `Url::parse` makes of `text`: the URL as it is written out again, or
/// the words of the error.
pub uninterp spec fn parsed_url(text: Seq<char>) -> Result<Seq<char>, Seq<char>>;

/// What `Url::join` makes of `reference` on the URL that `base` parses to:
/// the resulting URL as it is written out, or the words of the error.
pub uninterp spec fn joined_url(base: Seq<char>, reference: Seq<char>) -> Result<
    Seq<char>,
    Seq<char>,
>;

/// Parses an absolute URL with `reqwest::Url::parse` and writes it out again.
/// Nothing is claimed of the result but that it is a function of `text`.
#[verifier::external_body]
pub(crate) fn parse_url(text: &str) -> (url: Result<String, String>)
    ensures
        match url {
            Ok(u) => parsed_url(text@) == Ok::<Seq<char>, Seq<char>>(u@),
            Err(e) => parsed_url(text@) == Err::<Seq<char>, Seq<char>>(e@),
        },
{
    match reqwest::Url::parse(text) {
        Ok(url) => Ok(String::from(url)),
        Err(why) => Err(why.to_string()),
    }
}

/// Resolves `reference` against `base` with `reqwest::Url::join`, after
/// reading `base` back into a URL. Nothing is claimed of the result but that
/// it is a function of the two texts.
#[verifier::external_body]
pub(crate) fn join_url(base: &str, reference: &str) -> (url: Result<String, String>)
    ensures
        match url {
            Ok(u) => joined_url(base@, reference@) == Ok::<Seq<char>, Seq<char>>(u@),
            Err(e) => joined_url(base@, reference@) == Err::<Seq<char>, Seq<char>>(e@),
        },
{
    match reqwest::Url::parse(base).and_then(|url| url.join(reference)) {
        Ok(url) => Ok(String::from(url)),
        Err(why) => Err(why.to_string()),
    }
}

/// The failure that stands for a URL that could not be made.
pub open spec fn url_failure(cause: Seq<char>) -> FailureView {
    FailureView { kind: FailureKind::Parse, message: "Invalid URL"@, cause }
}

/// What a resolution gives to the rest of the library: the URL, or a failure
/// of kind `Parse` that carries the words of the error.
pub open spec fn checked_url(resolved: Result<Seq<char>, Seq<char>>) -> Result<
    Seq<char>,
    FailureView,
> {
    match resolved {
        Ok(u) => Ok(u),
        Err(e) => Err(url_failure(e)),
    }
}

/// Turns the outcome of a resolution into a URL or a failure.
pub fn check_url(resolved: Result<String, String>) -> (url: Result<String, Failure>)
    ensures
        match url {
            Ok(u) => resolved matches Ok(r) && u@ == r@,
            Err(f) => resolved matches Err(e) && f@ == url_failure(e@),
        },
{
    match resolved {
        Ok(u) => Ok(u),
        Err(e) => Err(Failure { kind: FailureKind::Parse, message: "Invalid URL".to_owned(), cause: e }),
    }
}

/// The URL segment of a directory: its name and a separator.
pub open spec fn directory_segment_text(name: Seq<char>) -> Seq<char> {
    name + SEPARATOR@
}

/// The URL segment of an archive: its name and the reserved suffix.
pub open spec fn archive_segment_text(name: Seq<char>) -> Seq<char> {
    name + ARCHIVE_SUFFIX@
}

/// Returns the URL segment of the directory called `name`.
pub fn directory_segment(name: &str) -> (segment: String)
    ensures
        segment@ == directory_segment_text(name@),
{
    let mut segment = name.to_owned();
    segment.append(SEPARATOR);
    segment
}

/// Returns the URL segment of the archive called `name`.
pub fn archive_segment(name: &str) -> (segment: String)
    ensures
        segment@ == archive_segment_text(name@),
{
    let mut segment = name.to_owned();
    segment.append(ARCHIVE_SUFFIX);
    segment
}

/// Resolves `reference` against `base`.
pub fn resolve(base: &str, reference: &str) -> (url: Result<String, Failure>)
    ensures
        match url {
            Ok(u) => checked_url(joined_url(base@, reference@)) == Ok::<Seq<char>, FailureView>(
                u@,
            ),
            Err(f) => checked_url(joined_url(base@, reference@)) == Err::<Seq<char>, FailureView>(
                f@,
            ),
        },
{
    check_url(join_url(base, reference))
}

/// Reads an absolute URL and writes it out again.
pub fn parse(text: &str) -> (url: Result<String, Failure>)
    ensures
        match url {
            Ok(u) => checked_url(parsed_url(text@)) == Ok::<Seq<char>, FailureView>(u@),
            Err(f) => checked_url(parsed_url(text@)) == Err::<Seq<char>, FailureView>(f@),
        },
{
    check_url(parse_url(text))
}

/// The URLs of one server.
#[derive(Debug, PartialEq, Eq)]
pub struct ServerUrls {
    /// The root.
    pub server_url: String,
    /// The directory of the packaged installation.
    pub game_base_url: String,
    /// The packaged installation.
    pub game_zip_url: String,
    /// The manifest.
    pub patchlist_url: String,
    /// The server's status.
    pub status_url: String,
    /// The directory of the patches.
    pub patch_url: String,
}

/// What the contracts say of a `ServerUrls`: its texts are sequences of
/// characters.
pub struct ServerUrlsView {
    pub server_url: Seq<char>,
    pub game_base_url: Seq<char>,
    pub game_zip_url: Seq<char>,
    pub patchlist_url: Seq<char>,
    pub status_url: Seq<char>,
    pub patch_url: Seq<char>,
}

impl View for ServerUrls {
    type V = ServerUrlsView;

    open spec fn view(&self) -> ServerUrlsView {
        ServerUrlsView {
            server_url: self.server_url@,
            game_base_url: self.game_base_url@,
            game_zip_url: self.game_zip_url@,
            patchlist_url: self.patchlist_url@,
            status_url: self.status_url@,
            patch_url: self.patch_url@,
        }
    }
}

/// The layout below the root `server`, with the packaged installation
/// called `package`: the root as it is written out, the directory of the
/// package and the package in it, the manifest and the status in the
/// directory of the metadata, and the directory of the patches. Where one
/// of these URLs cannot be made, the first such failure is the result.
pub open spec fn layout(server: Seq<char>, package: Seq<char>) -> Result<
    ServerUrlsView,
    FailureView,
> {
    match checked_url(parsed_url(server)) {
        Err(f) => Err(f),
        Ok(server_url) => match checked_url(joined_url(server_url, BASE_DIR@)) {
            Err(f) => Err(f),
            Ok(game_base_url) => match checked_url(joined_url(game_base_url, package)) {
                Err(f) => Err(f),
                Ok(game_zip_url) => match checked_url(joined_url(server_url, META_DIR@)) {
                    Err(f) => Err(f),
                    Ok(meta_url) => match checked_url(joined_url(meta_url, PATCHLIST@)) {
                        Err(f) => Err(f),
                        Ok(patchlist_url) => match checked_url(joined_url(meta_url, STATUS@)) {
                            Err(f) => Err(f),
                            Ok(status_url) => match checked_url(
                                joined_url(server_url, PATCH_DIR@),
                            ) {
                                Err(f) => Err(f),
                                Ok(patch_url) => Ok(
                                    ServerUrlsView {
                                        server_url,
                                        game_base_url,
                                        game_zip_url,
                                        patchlist_url,
                                        status_url,
                                        patch_url,
                                    },
                                ),
                            },
                        },
                    },
                },
            },
        },
    }
}

impl ServerUrls {
    /// Lays out the URLs below the root `server`, with the packaged
    /// installation called `package`. Fails with the first URL that cannot be
    /// made, and only then.
    pub fn new(server: &str, package: &str) -> (urls: Result<ServerUrls, Failure>)
        ensures
            match urls {
                Ok(u) => layout(server@, package@) == Ok::<ServerUrlsView, FailureView>(u@),
                Err(f) => layout(server@, package@) == Err::<ServerUrlsView, FailureView>(f@),
            },
    {
        let server_url = match parse(server) {
            Ok(u) => u,
            Err(f) => { return Err(f); },
        };
        let game_base_url = match resolve(server_url.as_str(), BASE_DIR) {
            Ok(u) => u,
            Err(f) => { return Err(f); },
        };
        let game_zip_url = match resolve(game_base_url.as_str(), package) {
            Ok(u) => u,
            Err(f) => { return Err(f); },
        };
        let meta_url = match resolve(server_url.as_str(), META_DIR) {
            Ok(u) => u,
            Err(f) => { return Err(f); },
        };
        let patchlist_url = match resolve(meta_url.as_str(), PATCHLIST) {
            Ok(u) => u,
            Err(f) => { return Err(f); },
        };
        let status_url = match resolve(meta_url.as_str(), STATUS) {
            Ok(u) => u,
            Err(f) => { return Err(f); },
        };
        let patch_url = match resolve(server_url.as_str(), PATCH_DIR) {
            Ok(u) => u,
            Err(f) => { return Err(f); },
        };
        Ok(ServerUrls { server_url, game_base_url, game_zip_url, patchlist_url, status_url, patch_url })
    }

    /// Resolves the root of the patches of one platform.
    pub fn platform_url(&self, platform: &str) -> (url: Result<String, Failure>)
        ensures
            match url {
                Ok(u) => checked_url(joined_url(self.patch_url@, directory_segment_text(platform@)))
                    == Ok::<Seq<char>, FailureView>(u@),
                Err(f) => checked_url(
                    joined_url(self.patch_url@, directory_segment_text(platform@)),
                ) == Err::<Seq<char>, FailureView>(f@),
            },
    {
        let segment = directory_segment(platform);
        resolve(self.patch_url.as_str(), segment.as_str())
    }
}

} // verus!
