use aeco_launcher::message::{Fraction, PatchMessage, PatchStatus};
use aeco_launcher::presentation::{PlayButtonState, Presentation, ProgressBarState, Rgb};

#[test]
fn nothing_is_offered_before_the_worker_speaks() {
    let shown = Presentation::new();
    assert_eq!(
        shown.progress_bar_state,
        ProgressBarState::Connecting("Waiting for patch server...".to_string())
    );
    assert_eq!(shown.play_button_state, PlayButtonState::Disabled);
    assert!(!shown.closing);
}

#[test]
fn texts_go_to_the_progress_bar() {
    let mut shown = Presentation::new();
    shown.handle_message(PatchMessage::Info("Checking server status".to_string()));
    assert_eq!(
        shown.progress_bar_state,
        ProgressBarState::Connecting("Checking server status".to_string())
    );
    shown.handle_message(PatchMessage::Downloading("Half".to_string(), Fraction { done: 1, of: 2 }));
    assert_eq!(
        shown.progress_bar_state,
        ProgressBarState::Downloading("Half".to_string(), Fraction { done: 1, of: 2 })
    );
    shown.handle_message(PatchMessage::Error("Broken".to_string()));
    assert_eq!(shown.progress_bar_state, ProgressBarState::Error("Broken".to_string()));
    assert_eq!(shown.play_button_state, PlayButtonState::Disabled);
}

#[test]
fn a_status_sets_the_button() {
    let mut shown = Presentation::new();
    shown.handle_message(PatchMessage::PatchStatus(PatchStatus::Failed));
    assert_eq!(shown.play_button_state, PlayButtonState::Retry);
    shown.handle_message(PatchMessage::PatchStatus(PatchStatus::Working));
    assert_eq!(shown.play_button_state, PlayButtonState::Disabled);
    shown.handle_message(PatchMessage::PatchStatus(PatchStatus::Finished));
    assert_eq!(shown.play_button_state, PlayButtonState::Play);
    assert_eq!(
        shown.progress_bar_state,
        ProgressBarState::Downloading("Ready!".to_string(), Fraction { done: 1, of: 1 })
    );
    assert!(!shown.closing);
    shown.handle_message(PatchMessage::PatchStatus(PatchStatus::Launched));
    assert!(shown.closing);
    assert_eq!(shown.play_button_state, PlayButtonState::Play);
}

#[test]
fn the_bar_is_coloured_by_what_it_shows() {
    let downloading = ProgressBarState::Downloading("d".to_string(), Fraction { done: 1, of: 4 });
    let connecting = ProgressBarState::Connecting("c".to_string());
    let error = ProgressBarState::Error("e".to_string());
    let grey = Rgb { red: 160, green: 160, blue: 160 };
    assert_eq!(downloading.background_color(), grey);
    assert_eq!(connecting.background_color(), grey);
    assert_eq!(error.background_color(), grey);
    assert_eq!(downloading.foreground_color(), Rgb { red: 0x4e, green: 0x80, blue: 0x4e });
    assert_eq!(connecting.foreground_color(), Rgb { red: 0xf0, green: 0xd0, blue: 0x90 });
    assert_eq!(error.foreground_color(), Rgb { red: 0xd0, green: 0x80, blue: 0x80 });
    let white = Rgb { red: 255, green: 255, blue: 255 };
    assert_eq!(downloading.text_color(), white);
    assert_eq!(connecting.text_color(), Rgb { red: 96, green: 96, blue: 96 });
    assert_eq!(error.text_color(), white);
}

#[test]
fn the_bar_is_filled_by_the_download_alone() {
    let downloading = ProgressBarState::Downloading("d".to_string(), Fraction { done: 1, of: 4 });
    assert_eq!(downloading.amount(), Fraction { done: 1, of: 4 });
    assert_eq!(ProgressBarState::Connecting("c".to_string()).amount(), Fraction { done: 1, of: 1 });
    assert_eq!(ProgressBarState::Error("e".to_string()).amount(), Fraction { done: 1, of: 1 });
    assert_eq!(downloading.text(), "d");
    assert_eq!(ProgressBarState::Connecting("c".to_string()).text(), "c");
    assert_eq!(ProgressBarState::Error("e".to_string()).text(), "e");
}

#[test]
fn fractions_of_the_whole_and_of_nothing() {
    assert_eq!(Fraction::whole(), Fraction { done: 1, of: 1 });
    assert_eq!(Fraction::nothing(), Fraction { done: 0, of: 1 });
}
