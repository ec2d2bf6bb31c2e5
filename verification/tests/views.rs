use jot::coordinator::CoordinatorUpdate;
use jot::dictionary::DictionaryStore;
use jot::gemini::KeyCheck;
use jot::history::{DictationRecord, Stats};
use jot::hotkey::HotkeyKey;
use jot::meta::{SessionMeta, SessionStatus};
use jot::recovery::RetryOutcome;
use jot::settings::{Settings, SettingsStore};
use jot::shell::Screen;
use jot::sound::Earcon;
use jot::state_machine::{DictationOutcome, DictationState};
use jot::theme::Theme;
use jot::views::history::{
    chip_tint, empty_words, error_summary, format_time, retry_status, row, search_query,
    status_chip_label, status_label, summary, Tint,
};
use jot::views::onboarding::{typed_key, OnboardingView, SaveKey, Step, TOTAL_STEPS};
use jot::views::widgets::{button_colors, button_label, ButtonKind, StatusTone};
use jot::views::{
    open_tool_window, tool_window, update_element, update_state, OpenWindow, UpdateState,
};

#[test]
fn every_status_has_copy_and_none_of_it_lies_about_the_clipboard() {
    for status in [
        SessionStatus::Inserted,
        SessionStatus::CopiedToClipboard,
        SessionStatus::AwaitingChip,
        SessionStatus::HeldSecure,
        SessionStatus::QueuedForRetry,
        SessionStatus::Recovered,
        SessionStatus::Cancelled,
        SessionStatus::Failed,
        SessionStatus::Silent,
    ] {
        let label = status_label(status);
        assert!(!label.is_empty());
    }
    // A recovered dictation was never put on the clipboard, so its row must not
    // imply it is ready to paste.
    assert!(!status_label(SessionStatus::Recovered).contains("paste"));
    assert!(!status_label(SessionStatus::HeldSecure).contains("Copied"));
}

#[test]
fn an_error_row_explains_itself_without_an_api_message() {
    // The chip already says "Failed"; the line under it has to add something
    // the user can act on.
    for code in [
        "offline",
        "network",
        "timeout",
        "auth",
        "model",
        "quota",
        "rate_limit",
        "bad_request",
        "safety",
        "empty",
        "tooNoisy",
        "disk_write",
        "engine_died",
        "audio_purged",
    ] {
        let summary = error_summary(Some(code), SessionStatus::Failed);
        assert_ne!(summary, "Failed", "{code} adds nothing");
        assert!(!summary.is_empty());
    }
    // An unrecognised code still says something rather than nothing.
    assert_eq!(error_summary(Some("who-knows"), SessionStatus::Failed), "Failed");
    assert_eq!(error_summary(None, SessionStatus::Failed), "Failed");
}

#[test]
fn chip_labels_stay_short_while_the_row_body_explains() {
    for status in [
        SessionStatus::Inserted,
        SessionStatus::CopiedToClipboard,
        SessionStatus::AwaitingChip,
        SessionStatus::HeldSecure,
        SessionStatus::QueuedForRetry,
        SessionStatus::Recovered,
        SessionStatus::Cancelled,
        SessionStatus::Failed,
        SessionStatus::Silent,
    ] {
        let chip = status_chip_label(status);
        assert!(!chip.is_empty());
        // A chip wide enough to hold a sentence pushes the timestamp and the
        // app name off the row.
        assert!(chip.len() <= 12, "{status:?} chip too long: {chip}");
    }
}

#[test]
fn a_cancelled_row_says_the_audio_survived() {
    assert!(status_label(SessionStatus::Cancelled).contains("kept"));
}

#[test]
fn timestamps_render_rather_than_panicking_on_a_missing_local_offset() {
    let formatted = format_time(0, 0);
    assert!(formatted.contains("Jan"), "{formatted}");
}

#[test]
fn a_timestamp_is_told_in_local_time() {
    // 2026-08-27 14:05:09 UTC, two hours east of Greenwich.
    let here = format_time(1_787_839_509, 7_200);
    let there = format_time(1_787_839_509, 0);
    assert!(here.contains("Aug") && here.contains("27"), "{here}");
    assert_ne!(here, there);
}

#[test]
fn a_row_can_be_copied_or_retried() {
    let mut meta = SessionMeta::new(1, 0, SessionStatus::Inserted);
    meta.cleaned_transcript = Some("hello".into());
    meta.target_app_name = Some("Notepad".into());
    let shown = row(&DictationRecord::from_meta(&meta, "f"), "Jan 1", Some("2.0s"));
    assert!(shown.can_copy);
    assert!(!shown.can_retry);
    assert_eq!(shown.body, "hello");
    assert!(shown.subtitle.contains("Notepad") && shown.subtitle.contains("Jan 1"));

    let queued = SessionMeta::new(2, 0, SessionStatus::QueuedForRetry);
    let shown = row(&DictationRecord::from_meta(&queued, "f"), "Jan 1", None);
    assert!(shown.can_retry);
    assert!(!shown.can_copy);
    assert_eq!(chip_tint(SessionStatus::Failed), Tint::Error);
}

#[test]
fn the_heading_counts() {
    let stats = Stats { total_words: 1234, total_dictations: 3, average_wpm: 90 };
    let words = summary(3, &stats);
    assert!(words.contains("1234") && words.contains("90"), "{words}");
    assert_ne!(empty_words(true), empty_words(false));
}

#[test]
fn a_blank_search_is_no_search() {
    assert_eq!(search_query("  "), None);
    assert_eq!(search_query("tax").as_deref(), Some("tax"));
}

#[test]
fn a_retry_says_how_it_went() {
    assert_eq!(retry_status(RetryOutcome::Recovered).tone, StatusTone::Good);
    assert_eq!(retry_status(RetryOutcome::Failed).tone, StatusTone::Bad);
    assert_eq!(retry_status(RetryOutcome::Busy).tone, StatusTone::Neutral);
}

#[test]
fn every_step_is_within_the_advertised_count() {
    for step in [Step::Key, Step::Microphone, Step::TryIt, Step::Done] {
        assert!(step.index() >= 1 && step.index() <= TOTAL_STEPS);
    }
    assert_eq!(Step::Done.index(), TOTAL_STEPS);
}

#[test]
fn onboarding_goes_from_the_key_to_a_first_dictation() {
    assert_eq!(typed_key(" AIza "), SaveKey::Store("AIza".into()));
    assert_eq!(typed_key("  "), SaveKey::Empty);

    let mut view = OnboardingView::new(false);
    assert_eq!(view.step, Step::Key);
    assert!(view.key_stored(true));
    view.key_checked(KeyCheck::Rejected(None), false, "m");
    assert_eq!(view.step, Step::Key);
    view.key_checked(KeyCheck::Unreachable, false, "m");
    assert_eq!(view.step, Step::Microphone);
    view.check_microphone(&Vec::new());
    assert_eq!(view.step, Step::Microphone);
    view.check_microphone(&vec!["Mic".to_string()]);
    assert_eq!(view.step, Step::TryIt);
    let done = DictationState::Done(DictationOutcome::Inserted);
    assert!(view.update(&CoordinatorUpdate::State(done)));
    assert_eq!(view.step, Step::Done);
    let mut settings = SettingsStore::new(Settings::default());
    assert_eq!(view.finish(&mut settings, true), Some(Earcon::Celebration));
    assert!(settings.data.has_completed_onboarding);
    let body = view.body(HotkeyKey::RightControl);
    assert!(!body.paragraphs.is_empty());
}

#[test]
fn a_stored_key_skips_the_first_step() {
    assert_eq!(OnboardingView::new(true).step, Step::Microphone);
}

#[test]
fn every_window_has_its_own_key() {
    let screens = [
        Screen::History,
        Screen::Dictionary,
        Screen::Settings,
        Screen::Onboarding,
        Screen::About,
    ];
    let keys: std::collections::HashSet<&str> =
        screens.iter().map(|screen| tool_window(*screen).key).collect();
    assert_eq!(keys.len(), screens.len());
    assert_eq!(open_tool_window(true, true), OpenWindow::Forward);
    assert_eq!(open_tool_window(true, false), OpenWindow::New);
    assert_eq!(open_tool_window(false, false), OpenWindow::New);
}

#[test]
fn an_unknown_release_says_so() {
    assert!(matches!(update_state(None), UpdateState::Unknown));
    assert!(matches!(update_state(Some(None)), UpdateState::UpToDate));
    let (said, link) = update_element(&UpdateState::UpToDate);
    assert!(!said.words.is_empty());
    assert_eq!(link, None);
}

#[test]
fn buttons_say_when_they_are_off() {
    let theme = Theme::light();
    assert_eq!(button_colors(ButtonKind::Primary, theme).background, theme.primary);
    assert_eq!(button_label("Save", true), "Save");
    assert_ne!(button_label("Save", false), "Save");
}

#[test]
fn the_dictionary_page_adds_and_imports() {
    let mut store = DictionaryStore::new(Vec::new());
    let (said, cleared) = jot::views::dictionary::add(&mut store, "Kubernetes", "cuber netties");
    assert_eq!(said.tone, StatusTone::Good);
    assert!(cleared);
    let (said, cleared) = jot::views::dictionary::add(&mut store, "kubernetes", "");
    assert_eq!(said.tone, StatusTone::Neutral);
    assert!(!cleared);
    let said = jot::views::dictionary::import_file(
        &mut store,
        Ok("term,misspelling,starred\nGraviton,gravy tonne,true\n".into()),
    );
    assert!(said.words.contains('1'), "{}", said.words);
    assert_eq!(store.entries.len(), 2);
    assert!(jot::views::dictionary::face(&store).can_export);
    let said =
        jot::views::dictionary::import_file(&mut store, Err("no such file".into()));
    assert_eq!(said.tone, StatusTone::Bad);
    let shown = jot::views::dictionary::row(&store.entries[0]);
    assert!(!shown.words.is_empty());
}
