//! What the presentation layer shows, as far as the worker's messages
//! decide it: the progress bar and the button.

use vstd::prelude::*;
use vstd::string::*;
use crate::message::{Fraction, PatchMessage, PatchMessageView, PatchStatus};

verus! {

/// A colour, as its red, green and blue parts.
#[derive(Debug, Clone, Copy, PartialEq, Eq, Structural)]
pub struct Rgb {
    pub red: u8,
    pub green: u8,
    pub blue: u8,
}

/// What the progress bar shows.
#[derive(Debug, PartialEq, Eq)]
pub enum ProgressBarState {
    Downloading(String, Fraction),
    Connecting(String),
    Error(String),
}

/// What the contracts say of a `ProgressBarState`: its texts are sequences of
/// characters.
pub enum ProgressBarView {
    Downloading(Seq<char>, Fraction),
    Connecting(Seq<char>),
    Error(Seq<char>),
}

impl View for ProgressBarState {
    type V = ProgressBarView;

    open spec fn view(&self) -> ProgressBarView {
        match self {
            ProgressBarState::Downloading(t, f) => ProgressBarView::Downloading(t@, *f),
            ProgressBarState::Connecting(t) => ProgressBarView::Connecting(t@),
            ProgressBarState::Error(t) => ProgressBarView::Error(t@),
        }
    }
}

/// What the button offers.
#[derive(Debug, Clone, Copy, PartialEq, Eq, Structural)]
pub enum PlayButtonState {
    Disabled,
    Play,
    Retry,
}

impl ProgressBarState {
    /// Returns the colour behind the bar: grey.
    pub fn background_color(&self) -> (color: Rgb)
        ensures
            color == (Rgb { red: 160, green: 160, blue: 160 }),
    {
        Rgb { red: 160, green: 160, blue: 160 }
    }

    /// Returns the colour of the bar: green for a download, yellow while
    /// connecting, red for an error.
    pub fn foreground_color(&self) -> (color: Rgb)
        ensures
            color == match self@ {
                ProgressBarView::Downloading(_, _) => Rgb { red: 0x4e, green: 0x80, blue: 0x4e },
                ProgressBarView::Connecting(_) => Rgb { red: 0xF0, green: 0xD0, blue: 0x90 },
                ProgressBarView::Error(_) => Rgb { red: 0xD0, green: 0x80, blue: 0x80 },
            },
    {
        match self {
            ProgressBarState::Downloading(_, _) => Rgb { red: 0x4e, green: 0x80, blue: 0x4e },
            ProgressBarState::Connecting(_) => Rgb { red: 0xF0, green: 0xD0, blue: 0x90 },
            ProgressBarState::Error(_) => Rgb { red: 0xD0, green: 0x80, blue: 0x80 },
        }
    }

    /// Returns the colour of the text: dark grey while connecting, white
    /// otherwise.
    pub fn text_color(&self) -> (color: Rgb)
        ensures
            color == match self@ {
                ProgressBarView::Connecting(_) => Rgb { red: 96, green: 96, blue: 96 },
                _ => Rgb { red: 255, green: 255, blue: 255 },
            },
    {
        match self {
            ProgressBarState::Connecting(_) => Rgb { red: 96, green: 96, blue: 96 },
            _ => Rgb { red: 255, green: 255, blue: 255 },
        }
    }

    /// Returns how much of the bar is filled: the part of the download that
    /// is done, and all of it otherwise.
    pub fn amount(&self) -> (amount: Fraction)
        ensures
            amount == match self@ {
                ProgressBarView::Downloading(_, f) => f,
                _ => Fraction { done: 1, of: 1 },
            },
    {
        match self {
            ProgressBarState::Downloading(_, amount) => *amount,
            _ => Fraction::whole(),
        }
    }

    /// Returns the text on the bar.
    pub fn text(&self) -> (text: &String)
        ensures
            text@ == match self@ {
                ProgressBarView::Downloading(t, _) => t,
                ProgressBarView::Connecting(t) => t,
                ProgressBarView::Error(t) => t,
            },
    {
        match self {
            ProgressBarState::Downloading(s, _) => s,
            ProgressBarState::Connecting(s) => s,
            ProgressBarState::Error(s) => s,
        }
    }
}

/// What the presentation layer shows.
#[derive(Debug, PartialEq, Eq)]
pub struct Presentation {
    pub progress_bar_state: ProgressBarState,
    pub play_button_state: PlayButtonState,
    /// Whether the window is to close.
    pub closing: bool,
}

/// What the contracts say of a `Presentation`: its texts are sequences of
/// characters.
pub struct PresentationView {
    pub progress_bar_state: ProgressBarView,
    pub play_button_state: PlayButtonState,
    pub closing: bool,
}

impl View for Presentation {
    type V = PresentationView;

    open spec fn view(&self) -> PresentationView {
        PresentationView {
            progress_bar_state: self.progress_bar_state@,
            play_button_state: self.play_button_state,
            closing: self.closing,
        }
    }
}

/// What is shown after a message of the worker. Texts go to the progress
/// bar. A status sets the button: `Play` once the installation is up to
/// date, nothing while the worker works, `Retry` after a failure; and the
/// window closes once the application is launched.
pub open spec fn shown_after(p: PresentationView, message: PatchMessageView) -> PresentationView {
    match message {
        PatchMessageView::Error(text) => PresentationView {
            progress_bar_state: ProgressBarView::Error(text),
            ..p
        },
        PatchMessageView::Downloading(text, fraction) => PresentationView {
            progress_bar_state: ProgressBarView::Downloading(text, fraction),
            ..p
        },
        PatchMessageView::Info(text) => PresentationView {
            progress_bar_state: ProgressBarView::Connecting(text),
            ..p
        },
        PatchMessageView::PatchStatus(PatchStatus::Finished) => PresentationView {
            progress_bar_state: ProgressBarView::Downloading(
                "Ready!"@,
                Fraction { done: 1, of: 1 },
            ),
            play_button_state: PlayButtonState::Play,
            ..p
        },
        PatchMessageView::PatchStatus(PatchStatus::Working) => PresentationView {
            play_button_state: PlayButtonState::Disabled,
            ..p
        },
        PatchMessageView::PatchStatus(PatchStatus::Failed) => PresentationView {
            play_button_state: PlayButtonState::Retry,
            ..p
        },
        PatchMessageView::PatchStatus(PatchStatus::Launched) => PresentationView {
            closing: true,
            ..p
        },
    }
}

impl Presentation {
    /// What is shown before the worker has said anything.
    pub fn new() -> (p: Presentation)
        ensures
            p@ == (PresentationView {
                progress_bar_state: ProgressBarView::Connecting("Waiting for patch server..."@),
                play_button_state: PlayButtonState::Disabled,
                closing: false,
            }),
    {
        Presentation {
            progress_bar_state: ProgressBarState::Connecting(
                "Waiting for patch server...".to_owned(),
            ),
            play_button_state: PlayButtonState::Disabled,
            closing: false,
        }
    }

    /// Takes a message of the worker.
    pub fn handle_message(&mut self, message: PatchMessage)
        ensures
            final(self)@ == shown_after(old(self)@, message@),
    {
        match message {
            PatchMessage::Error(text) => {
                self.progress_bar_state = ProgressBarState::Error(text);
            },
            PatchMessage::Downloading(text, fraction) => {
                self.progress_bar_state = ProgressBarState::Downloading(text, fraction);
            },
            PatchMessage::Info(text) => {
                self.progress_bar_state = ProgressBarState::Connecting(text);
            },
            PatchMessage::PatchStatus(status) => match status {
                PatchStatus::Finished => {
                    self.progress_bar_state = ProgressBarState::Downloading(
                        "Ready!".to_owned(),
                        Fraction::whole(),
                    );
                    self.play_button_state = PlayButtonState::Play;
                },
                PatchStatus::Working => {
                    self.play_button_state = PlayButtonState::Disabled;
                },
                PatchStatus::Failed => {
                    self.play_button_state = PlayButtonState::Retry;
                },
                PatchStatus::Launched => {
                    self.closing = true;
                },
            },
        }
    }
}

} // verus!
