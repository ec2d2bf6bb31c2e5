use jot::file_layout::{
    audio_wav, dictionary_json, estimated_duration_of_wav, history_sqlite, make_session_folder,
    meta_json, recordings_root, session_folder_name, settings_json,
};
use jot::clock::Duration;
use jot::meta::{SessionMeta, SessionStatus};

const ID: u128 = 0x0123abcd_0000_4000_8000_000000000000;

/// 2026-08-27 14:05:09 UTC.
const AT: i128 = 1_787_839_509_000_000_000;

fn sample() -> SessionMeta {
    SessionMeta::new(ID, AT, SessionStatus::Recording)
}

#[test]
fn status_strings_match_the_persisted_form() {
    for (status, form) in [
        (SessionStatus::Recording, "recording"),
        (SessionStatus::CopiedToClipboard, "copiedToClipboard"),
        (SessionStatus::QueuedForRetry, "queuedForRetry"),
        (SessionStatus::Failed, "failed"),
    ] {
        assert_eq!(SessionStatus::parse(status.as_str()), Some(status));
        assert_eq!(status.as_str(), form);
    }
    assert_eq!(SessionStatus::parse("bogus"), None);
}

#[test]
fn display_text_prefers_the_cleaned_transcript() {
    let mut meta = sample();
    assert_eq!(meta.display_text(), "");
    meta.raw_transcript = Some("raw".into());
    assert_eq!(meta.display_text(), "raw");
    meta.cleaned_transcript = Some("clean".into());
    assert_eq!(meta.display_text(), "clean");
}

#[test]
fn session_folder_is_timestamp_prefixed_and_unique() {
    let folder = make_session_folder(ID, AT).unwrap();
    assert_eq!(folder.parts.last().map(String::as_str), Some("20260827-140509-0123abcd"));
    assert_eq!(folder.parts[..1], recordings_root().parts[..]);
    assert_eq!(session_folder_name(ID, AT).as_deref(), Some("20260827-140509-0123abcd"));
}

#[test]
fn duration_estimate_ignores_header_only_files() {
    assert_eq!(estimated_duration_of_wav(44), None);
    // 2 seconds of 16 kHz mono 16-bit audio plus the header.
    assert_eq!(estimated_duration_of_wav(44 + 64_000), Some(Duration::from_secs(2)));
}

#[test]
fn files_lie_where_they_are_looked_for() {
    assert_eq!(recordings_root().parts, vec!["recordings"]);
    assert_eq!(settings_json().parts, vec!["settings.json"]);
    assert_eq!(dictionary_json().parts, vec!["dictionary.json"]);
    assert_eq!(history_sqlite().parts, vec!["history.sqlite"]);
    let folder = recordings_root().join("x");
    assert_eq!(audio_wav(&folder).parts, vec!["recordings", "x", "audio.wav"]);
    assert_eq!(meta_json(&folder).parts, vec!["recordings", "x", "meta.json"]);
}
