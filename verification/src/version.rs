//! What the launcher reports about its own build.

use vstd::prelude::*;
use vstd::string::*;
use vstd::utf8::*;

verus! {

/// Whether the sources had uncommitted changes when the program was built.
#[derive(Debug, Clone, Copy, PartialEq, Eq)]
pub enum TreeState {
    Clean,
    Dirty,
}

/// The values that the build recorded: the package version, the hash of the
/// latest commit, and the number of changes on top of it ("0" for none).
#[derive(Debug, PartialEq, Eq)]
pub struct BuildInfo {
    pub pkg_version: Option<String>,
    pub git_hash: Option<String>,
    pub git_changes: Option<String>,
}

/// Number of bytes of a commit hash that the short form keeps.
pub const SHORT_HASH_BYTES: usize = 7;

/// Length in bytes of the short form of a hash of `len` bytes.
pub open spec fn short_len(len: nat) -> nat {
    if len < 7 {
        len
    } else {
        7
    }
}

/// The short form of a hash: its first seven bytes, or all of it if it is shorter.
pub open spec fn short_hash_text(hash: Seq<char>) -> Seq<char> {
    let bytes = encode_utf8(hash);
    decode_utf8(bytes.subrange(0, short_len(bytes.len()) as int))
}

/// True if the short form of `hash` ends between two characters.
pub open spec fn short_hash_defined(hash: Seq<char>) -> bool {
    let bytes = encode_utf8(hash);
    is_char_boundary(bytes, short_len(bytes.len()) as int)
}

/// The state of the source tree that `git_changes` stands for.
pub open spec fn tree_state_of(git_changes: Option<Seq<char>>) -> Option<TreeState> {
    match git_changes {
        Some(c) => Some(if c == seq!['0'] { TreeState::Clean } else { TreeState::Dirty }),
        None => None,
    }
}

/// The pieces of the summary, in order: version, short hash, dirty marker.
pub open spec fn summary_pieces(
    version: Option<Seq<char>>,
    hash: Option<Seq<char>>,
    git_changes: Option<Seq<char>>,
) -> Seq<Seq<char>> {
    let a = match version {
        Some(v) => seq![v],
        None => Seq::<Seq<char>>::empty(),
    };
    let b = match hash {
        Some(h) => seq![short_hash_text(h)],
        None => Seq::<Seq<char>>::empty(),
    };
    let c = if tree_state_of(git_changes) == Some(TreeState::Dirty) {
        seq![seq!['d', 'i', 'r', 't', 'y']]
    } else {
        Seq::<Seq<char>>::empty()
    };
    a + b + c
}

/// `pieces` written one after the other with a hyphen between neighbours.
pub open spec fn join_with_hyphen(pieces: Seq<Seq<char>>) -> Seq<char>
    decreases pieces.len(),
{
    if pieces.len() == 0 {
        Seq::<char>::empty()
    } else if pieces.len() == 1 {
        pieces[0]
    } else {
        join_with_hyphen(pieces.drop_last()) + seq!['-'] + pieces.last()
    }
}

impl BuildInfo {
    /// The version of the package, as a sequence of characters.
    pub open spec fn version_view(&self) -> Option<Seq<char>> {
        match self.pkg_version {
            Some(v) => Some(v@),
            None => None,
        }
    }

    /// The hash of the latest commit, as a sequence of characters.
    pub open spec fn hash_view(&self) -> Option<Seq<char>> {
        match self.git_hash {
            Some(v) => Some(v@),
            None => None,
        }
    }

    /// The number of changes, as the build wrote it.
    pub open spec fn changes_view(&self) -> Option<Seq<char>> {
        match self.git_changes {
            Some(v) => Some(v@),
            None => None,
        }
    }
}

/// Returns the version of the package, if the build recorded one.
pub fn pkg_version(info: &BuildInfo) -> (version: Option<&str>)
    ensures
        match version {
            Some(v) => info.version_view() == Some(v@),
            None => info.version_view() is None,
        },
{
    match &info.pkg_version {
        Some(v) => Some(v.as_str()),
        None => None,
    }
}

/// Returns the full hash of the latest commit, if the build recorded one.
pub fn git_hash(info: &BuildInfo) -> (hash: Option<&str>)
    ensures
        match hash {
            Some(h) => info.hash_view() == Some(h@),
            None => info.hash_view() is None,
        },
{
    match &info.git_hash {
        Some(h) => Some(h.as_str()),
        None => None,
    }
}

/// Returns `Clean` if the build saw no modification of the sources, `Dirty`
/// if it saw any, and nothing if it did not look.
pub fn tree_state(info: &BuildInfo) -> (state: Option<TreeState>)
    ensures
        state == tree_state_of(info.changes_view()),
{
    match &info.git_changes {
        Some(c) => {
            let s = c.as_str();
            if s.unicode_len() == 1 && s.get_char(0) == '0' {
                assert(s@ =~= seq!['0']);
                Some(TreeState::Clean)
            } else {
                Some(TreeState::Dirty)
            }
        },
        None => None,
    }
}

/// Returns the beginning of the commit hash: seven bytes at most.
pub fn short_hash(info: &BuildInfo) -> (short: Option<&str>)
    requires
        info.hash_view() matches Some(h) ==> short_hash_defined(h),
    ensures
        match short {
            Some(s) => info.hash_view() matches Some(h) && s@ == short_hash_text(h),
            None => info.hash_view() is None,
        },
{
    match git_hash(info) {
        Some(long_hash) => {
            let len = long_hash.as_bytes().len();
            let end: usize = if len < SHORT_HASH_BYTES {
                len
            } else {
                SHORT_HASH_BYTES
            };
            let (head, _) = long_hash.split_at(end);
            proof {
                encode_utf8_decode_utf8(head@);
            }
            Some(head)
        },
        None => None,
    }
}

/// Produces the summary of the build: version, short hash and the word
/// `dirty`, as far as each is known, with hyphens between them.
/// Example: `0.1.0-2cfe000-dirty`.
pub fn version_summary(info: &BuildInfo) -> (summary: String)
    requires
        info.hash_view() matches Some(h) ==> short_hash_defined(h),
    ensures
        summary@ == join_with_hyphen(
            summary_pieces(info.version_view(), info.hash_view(), info.changes_view()),
        ),
{
    let mut summary = String::new();
    let mut count: usize = 0;
    let ghost mut pieces: Seq<Seq<char>> = Seq::empty();
    if let Some(version) = pkg_version(info) {
        summary.append(version);
        count = count + 1;
        proof {
            pieces = pieces.push(version@);
            assert(summary@ =~= version@);
        }
    }
    assert(summary@ == join_with_hyphen(pieces));
    if let Some(hash) = short_hash(info) {
        let ghost before = summary@;
        if count > 0 {
            summary.append("-");
        }
        summary.append(hash);
        count = count + 1;
        proof {
            reveal_strlit("-");
            assert("-"@ =~= seq!['-']);
            let longer = pieces.push(hash@);
            assert(longer.drop_last() =~= pieces);
            assert(summary@ =~= join_with_hyphen(longer));
            pieces = longer;
        }
    }
    assert(count == pieces.len());
    if let Some(TreeState::Dirty) = tree_state(info) {
        if count > 0 {
            summary.append("-");
        }
        summary.append("dirty");
        proof {
            reveal_strlit("-");
            reveal_strlit("dirty");
            assert("-"@ =~= seq!['-']);
            assert("dirty"@ =~= seq!['d', 'i', 'r', 't', 'y']);
            let longer = pieces.push("dirty"@);
            assert(longer.drop_last() =~= pieces);
            assert(summary@ =~= join_with_hyphen(longer));
            pieces = longer;
        }
    }
    assert(pieces =~= summary_pieces(info.version_view(), info.hash_view(), info.changes_view()));
    summary
}

} // verus!
