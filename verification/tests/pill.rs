use jot::clock::Duration;
use jot::pill::{
    failure_copy, Face, PillState, PillView, LISTENING_FRAME, LISTENING_WIDTH, PROCESSING_FRAME,
};
use jot::state_machine::{DictationFailure, DictationOutcome, DictationState, SilenceReason};
use jot::theme::{mono_font, ui_font, Theme, WindowAppearance, MONO_FALLBACK, UI_FALLBACK};

#[test]
fn warming_already_reads_as_listening() {
    // The key press must be acknowledged before the microphone is open.
    assert_eq!(
        PillView::project(DictationState::Warming, SilenceReason::NoSpeech, true),
        PillState::Listening { locked: false }
    );
}

#[test]
fn the_resting_state_follows_the_idle_indicator_setting() {
    assert_eq!(
        PillView::project(DictationState::Idle, SilenceReason::NoSpeech, true),
        PillState::IdleDot
    );
    assert_eq!(
        PillView::project(DictationState::Idle, SilenceReason::NoSpeech, false),
        PillState::Hidden
    );
    // A cancel returns to rest rather than shouting about it.
    assert_eq!(
        PillView::project(DictationState::Cancelled, SilenceReason::NoSpeech, false),
        PillState::Hidden
    );
}

#[test]
fn silence_copy_distinguishes_a_quiet_room_from_a_loud_one() {
    let quiet = PillView::project(
        DictationState::Done(DictationOutcome::Silent),
        SilenceReason::NoSpeech,
        true,
    );
    let noisy = PillView::project(
        DictationState::Done(DictationOutcome::Silent),
        SilenceReason::TooNoisy,
        true,
    );
    assert_ne!(quiet, noisy);
    assert!(matches!(quiet, PillState::Notice(_)));
}

#[test]
fn a_held_transcript_never_claims_to_be_on_the_clipboard() {
    let held = PillView::project(
        DictationState::Done(DictationOutcome::HeldForSecureField),
        SilenceReason::NoSpeech,
        true,
    );
    let PillState::Notice(message) = held else {
        panic!("expected a notice");
    };
    assert!(!message.to_lowercase().contains("copied"), "{message}");
}

#[test]
fn every_failure_has_copy_that_says_where_the_words_went() {
    for failure in [
        DictationFailure::Network,
        DictationFailure::Auth,
        DictationFailure::ModelAccess,
        DictationFailure::RateLimited,
        DictationFailure::QuotaExhausted,
        DictationFailure::Timeout,
        DictationFailure::Validation,
        DictationFailure::SafetyBlocked,
    ] {
        let copy = failure_copy(failure);
        assert!(!copy.is_empty());
        // Anything recoverable must say so; an error with no next step is just
        // a scolding.
        if !matches!(failure, DictationFailure::Auth | DictationFailure::ModelAccess) {
            assert!(
                copy.contains("History"),
                "{failure:?} does not say where the words are: {copy}"
            );
        }
    }
}

#[test]
fn animation_frames_are_only_requested_while_something_moves() {
    let mut pill = PillView::new();
    assert_eq!(pill.frame_interval(), None);
    pill.state = PillState::Listening { locked: false };
    assert_eq!(pill.frame_interval(), Some(Duration::from_nanos(LISTENING_FRAME)));
    pill.state = PillState::Processing;
    assert_eq!(pill.frame_interval(), Some(Duration::from_nanos(PROCESSING_FRAME)));
    pill.state = PillState::Success { words: 3 };
    assert_eq!(pill.frame_interval(), None);
}

#[test]
fn the_timer_reads_as_minutes_and_seconds() {
    let mut pill = PillView::new();
    pill.elapsed = Duration::from_secs(75);
    assert_eq!(pill.timer_text(), "1:15");
    pill.elapsed = Duration::from_secs(5);
    assert_eq!(pill.timer_text(), "0:05");
}

#[test]
fn the_timer_appears_after_ten_seconds() {
    let mut pill = PillView::new();
    pill.state = PillState::Listening { locked: false };
    pill.recording_since = Some(0);
    pill.refresh_clock(9_000_000_000);
    assert_eq!(
        pill.face(),
        Face::Listening { width: LISTENING_WIDTH, hands_free: false, timer: None }
    );
    assert!(pill.refresh_clock(12_000_000_000));
    assert_eq!(
        pill.face(),
        Face::Listening {
            width: LISTENING_WIDTH,
            hands_free: false,
            timer: Some("0:12".into())
        }
    );
}

#[test]
fn still_bars_ask_for_no_frames() {
    let mut pill = PillView::new();
    pill.state = PillState::Listening { locked: false };
    assert!(pill.frame_due(false, None, 0));
    assert!(!pill.frame_due(true, None, 0));
    assert!(!pill.frame_due(false, Some(0), LISTENING_FRAME as i128 - 1));
    assert!(pill.frame_due(false, Some(0), LISTENING_FRAME as i128));
}

#[test]
fn light_and_dark_are_genuinely_different_surfaces() {
    assert_ne!(Theme::light().surface, Theme::dark().surface);
    assert_ne!(Theme::light().on_surface, Theme::dark().on_surface);
    assert!(Theme::dark().dark);
    assert!(!Theme::light().dark);
}

#[test]
fn surfaces_are_never_pure_black_or_pure_white_extremes() {
    // Pure black backgrounds bloom on OLED and pure white ones glare.
    assert_ne!(Theme::dark().window_background, 0x000000);
    assert_ne!(Theme::light().window_background, 0xFFFFFF);
}

#[test]
fn appearance_maps_vibrant_variants_onto_the_right_theme() {
    assert!(Theme::for_appearance(WindowAppearance::VibrantDark).dark);
    assert!(!Theme::for_appearance(WindowAppearance::VibrantLight).dark);
}

#[test]
fn increased_contrast_collapses_the_secondary_text_colour() {
    let theme = Theme::dark().with_increased_contrast();
    assert_eq!(theme.on_surface_variant, theme.on_surface);
    assert_eq!(theme.outline, theme.on_surface);
}

#[test]
fn font_helpers_have_a_usable_fallback_before_registration() {
    // With no font known, these must still name a real system face.
    assert_eq!(ui_font(&Vec::new()), UI_FALLBACK);
    assert_eq!(mono_font(&Vec::new()), MONO_FALLBACK);
    assert!(!ui_font(&Vec::new()).is_empty());
    assert!(!mono_font(&Vec::new()).is_empty());
}
