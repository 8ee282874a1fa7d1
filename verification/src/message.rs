//! What the worker and the presentation layer say to each other.

use vstd::prelude::*;

verus! {

/// Where the worker stands, as the presentation layer is told.
#[derive(Debug, Clone, Copy, PartialEq, Eq, Structural)]
pub enum PatchStatus {
    /// The installation is up to date.
    Finished,
    /// An attempt is running.
    Working,
    /// The last attempt, or the launch, failed.
    Failed,
    /// The application was started; there is nothing left to do.
    Launched,
}

/// A command of the presentation layer.
#[derive(Debug, Clone, Copy, PartialEq, Eq, Structural)]
pub enum GUIMessage {
    Retry,
    Play,
    Close,
}

/// A part of a whole, for a progress bar: `done` out of `of`.
#[derive(Debug, Clone, Copy, PartialEq, Eq, Structural)]
pub struct Fraction {
    pub done: u64,
    pub of: u64,
}

impl Fraction {
    /// A fraction never exceeds the whole.
    pub open spec fn valid(self) -> bool {
        self.done <= self.of
    }

    /// The whole: shown when nothing more precise is known.
    pub fn whole() -> (f: Fraction)
        ensures
            f == (Fraction { done: 1, of: 1 }),
            f.valid(),
    {
        Fraction { done: 1, of: 1 }
    }

    /// Nothing done yet.
    pub fn nothing() -> (f: Fraction)
        ensures
            f == (Fraction { done: 0, of: 1 }),
            f.valid(),
    {
        Fraction { done: 0, of: 1 }
    }
}

/// A report of the worker.
#[derive(Debug, PartialEq, Eq)]
pub enum PatchMessage {
    Error(String),
    Downloading(String, Fraction),
    Info(String),
    PatchStatus(PatchStatus),
}

/// A report, with its text as a sequence of characters.
pub enum PatchMessageView {
    Error(Seq<char>),
    Downloading(Seq<char>, Fraction),
    Info(Seq<char>),
    PatchStatus(PatchStatus),
}

impl View for PatchMessage {
    type V = PatchMessageView;

    open spec fn view(&self) -> PatchMessageView {
        match self {
            PatchMessage::Error(t) => PatchMessageView::Error(t@),
            PatchMessage::Downloading(t, f) => PatchMessageView::Downloading(t@, *f),
            PatchMessage::Info(t) => PatchMessageView::Info(t@),
            PatchMessage::PatchStatus(s) => PatchMessageView::PatchStatus(*s),
        }
    }
}

} // verus!
