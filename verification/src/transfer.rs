//! What a transfer tells while it runs: how much has arrived, and the
//! messages that say so.

use vstd::prelude::*;
use vstd::string::*;
use crate::error::{Failure, FailureKind, FailureView};
use crate::message::{Fraction, PatchMessage, PatchMessageView};
use crate::text::{decimal, decimal_text};

verus! {

/// A quantity of bytes as `byte_unit` writes it for a reader, in binary
/// multiples: the text of `Byte::from_bytes(bytes).get_appropriate_unit(true)`.
pub uninterp spec fn byte_string_text(bytes: u128) -> Seq<char>;

/// Formats a quantity of bytes for a reader, with
/// `byte_unit::Byte::get_appropriate_unit` and its `Display`. Nothing is
/// claimed of the text but that it is a function of `bytes`.
#[verifier::external_body]
pub fn byte_string(bytes: u128) -> (text: String)
    ensures
        text@ == byte_string_text(bytes),
{
    byte_unit::Byte::from_bytes(bytes).get_appropriate_unit(true).to_string()
}

/// True for the codes of status with which a server says that a request
/// succeeded.
pub open spec fn is_success(status: u16) -> bool {
    200 <= status < 300
}

/// Tells whether a response with this code of status is taken as a success.
pub fn response_accepted(status: u16) -> (accepted: bool)
    ensures
        accepted == is_success(status),
{
    200 <= status && status < 300
}

/// The failure of a download that will not fit into memory.
pub open spec fn too_large() -> FailureView {
    FailureView {
        kind: FailureKind::Network,
        message: "File to download is too large to load into memory"@,
        cause: Seq::empty(),
    }
}

/// Returns the number of bytes to reserve for a download into memory: the
/// length that the server has declared, or nothing if it has declared
/// none. Fails if the declared length does not fit into memory.
pub fn buffer_capacity(total: Option<u64>) -> (capacity: Result<usize, Failure>)
    ensures
        match capacity {
            Ok(c) => match total {
                Some(t) => c == t,
                None => c == 0,
            },
            Err(f) => total matches Some(t) && t > usize::MAX && f@ == too_large(),
        },
{
    match total {
        Some(t) => {
            if t > usize::MAX as u64 {
                proof {
                    reveal_strlit("");
                    assert(""@ =~= Seq::<char>::empty());
                }
                Err(
                    Failure::new(
                        FailureKind::Network,
                        "File to download is too large to load into memory",
                        "",
                    ),
                )
            } else {
                Ok(t as usize)
            }
        },
        None => Ok(0),
    }
}

/// How far a transfer has come.
#[derive(Debug, Clone, Copy, PartialEq, Eq, Structural)]
pub struct Transfer {
    /// The number of bytes that have arrived.
    pub downloaded: u64,
    /// The length that the server has declared, if it has declared one.
    pub total: Option<u64>,
}

impl Transfer {
    /// Begins a transfer: nothing has arrived.
    pub fn begin(total: Option<u64>) -> (transfer: Transfer)
        ensures
            transfer == (Transfer { downloaded: 0, total }),
    {
        Transfer { downloaded: 0, total }
    }

    /// Tells whether a chunk of this length can be counted.
    pub fn fits(&self, chunk: usize) -> (fits: bool)
        ensures
            fits == (self.downloaded + chunk <= u64::MAX),
    {
        chunk as u64 <= u64::MAX - self.downloaded
    }

    /// Counts a chunk that has arrived, and returns what is reported of the
    /// transfer: the number of bytes so far, which never goes down, and the
    /// declared length.
    pub fn record(&mut self, chunk: usize) -> (report: (u64, Option<u64>))
        requires
            old(self).downloaded + chunk <= u64::MAX,
        ensures
            final(self).downloaded == old(self).downloaded + chunk,
            final(self).downloaded >= old(self).downloaded,
            final(self).total == old(self).total,
            report == (final(self).downloaded, final(self).total),
    {
        self.downloaded = self.downloaded + chunk as u64;
        (self.downloaded, self.total)
    }

    /// Tells whether everything that the server has declared has arrived.
    pub fn is_complete(&self) -> (complete: bool)
        ensures
            complete == (self.total == Some(self.downloaded)),
    {
        match self.total {
            Some(t) => t == self.downloaded,
            None => false,
        }
    }
}

/// The part of a download that is done. With a declared length it is what
/// has arrived, and no more than the length, out of the length. Without
/// one it counts as the whole.
pub open spec fn download_fraction(downloaded: u64, total: Option<u64>) -> Fraction {
    match total {
        Some(t) => Fraction {
            done: if downloaded <= t {
                downloaded
            } else {
                t
            },
            of: t,
        },
        None => Fraction { done: 1, of: 1 },
    }
}

/// The text that tells of a download: what is downloaded, how much has
/// arrived, and out of how much, if that is known.
pub open spec fn download_text(what: Seq<char>, arrived: Seq<char>, whole: Option<Seq<char>>) -> Seq<
    char,
> {
    match whole {
        Some(w) => what + " ("@ + arrived + " / "@ + w + ")"@,
        None => what + " ("@ + arrived + ")"@,
    }
}

/// Returns the part of a download that is done.
pub fn fraction_of(downloaded: u64, total: Option<u64>) -> (fraction: Fraction)
    ensures
        fraction == download_fraction(downloaded, total),
        fraction.valid(),
{
    match total {
        Some(t) => Fraction {
            done: if downloaded <= t {
                downloaded
            } else {
                t
            },
            of: t,
        },
        None => Fraction::whole(),
    }
}

/// Makes the message that tells of a download, from the quantities as they
/// are written for a reader.
pub fn compose_download_message(
    what: &str,
    arrived: &str,
    whole: Option<&str>,
    fraction: Fraction,
) -> (message: PatchMessage)
    ensures
        message@ == PatchMessageView::Downloading(
            download_text(
                what@,
                arrived@,
                match whole {
                    Some(w) => Some(w@),
                    None => None,
                },
            ),
            fraction,
        ),
{
    let mut text = what.to_owned();
    text.append(" (");
    text.append(arrived);
    match whole {
        Some(w) => {
            text.append(" / ");
            text.append(w);
        },
        None => {},
    }
    text.append(")");
    PatchMessage::Downloading(text, fraction)
}

/// The message that tells of a download.
pub open spec fn download_message_of(what: Seq<char>, downloaded: u64, total: Option<u64>) -> PatchMessageView {
    PatchMessageView::Downloading(
        download_text(
            what,
            byte_string_text(downloaded as u128),
            match total {
                Some(t) => Some(byte_string_text(t as u128)),
                None => None,
            },
        ),
        download_fraction(downloaded, total),
    )
}

/// Makes the message that tells of a download: `what` is being downloaded,
/// `downloaded` bytes have arrived, out of `total` if the server has
/// declared a length.
pub fn download_message(what: &str, downloaded: u64, total: Option<u64>) -> (message: PatchMessage)
    ensures
        message@ == download_message_of(what@, downloaded, total),
{
    let arrived = byte_string(downloaded as u128);
    let fraction = fraction_of(downloaded, total);
    match total {
        Some(t) => {
            let whole = byte_string(t as u128);
            compose_download_message(what, arrived.as_str(), Some(whole.as_str()), fraction)
        },
        None => compose_download_message(what, arrived.as_str(), None, fraction),
    }
}

/// The text that tells of the unpacking of the package.
pub open spec fn extraction_text(number: nat, count: nat, done: Seq<char>, whole: Seq<char>) -> Seq<
    char,
> {
    "Extracting file "@ + decimal_text(number) + " of "@ + decimal_text(count) + " ("@ + done
        + " / "@ + whole + ")"@
}

/// Makes the message that tells of the unpacking of the package, from the
/// quantities as they are written for a reader.
pub fn compose_extraction_message(
    number: u64,
    count: u64,
    done: &str,
    whole: &str,
    fraction: Fraction,
) -> (message: PatchMessage)
    ensures
        message@ == PatchMessageView::Downloading(
            extraction_text(number as nat, count as nat, done@, whole@),
            fraction,
        ),
{
    let mut text = "Extracting file ".to_owned();
    let number_text = decimal(number);
    text.append(number_text.as_str());
    text.append(" of ");
    let count_text = decimal(count);
    text.append(count_text.as_str());
    text.append(" (");
    text.append(done);
    text.append(" / ");
    text.append(whole);
    text.append(")");
    PatchMessage::Downloading(text, fraction)
}

/// Makes the message that tells of the unpacking of the package: file
/// `number` of `count` is next, and `decompressed` bytes out of `total`
/// have been written.
pub fn extraction_message(number: u64, count: u64, decompressed: u64, total: u64) -> (message:
    PatchMessage)
    ensures
        message@ == PatchMessageView::Downloading(
            extraction_text(
                number as nat,
                count as nat,
                byte_string_text(decompressed as u128),
                byte_string_text(total as u128),
            ),
            Fraction { done: decompressed, of: total },
        ),
{
    let done = byte_string(decompressed as u128);
    let whole = byte_string(total as u128);
    compose_extraction_message(
        number,
        count,
        done.as_str(),
        whole.as_str(),
        Fraction { done: decompressed, of: total },
    )
}

} // verus!
