use jot::credentials::{api_key, has_api_key};
use jot::gemini::KeyCheck;
use jot::hotkey::HotkeyKey;
use jot::settings::{FormattingPolicy, Settings, SettingsStore, TranscriptionMode};
use jot::transcription::record_gate_trip;
use jot::views::settings::{
    autostart_shown, choose_hotkey, choose_microphone, choose_retention, flip, key_checked,
    microphone_choices, save_advanced, save_api_key, DeleteAll, DeletePress, Toggle,
    RETENTION_CHOICES,
};
use jot::views::widgets::StatusTone;

const NOW: i128 = 1_787_839_509_000_000_000;
const HOUR: i128 = 3_600_000_000_000;

fn store() -> SettingsStore {
    SettingsStore::new(Settings::default())
}

#[test]
fn defaults_match_the_shipped_product() {
    let settings = Settings::default();
    assert!(settings.smart_transcription);
    assert!(!settings.smart_cleanup_pass);
    assert!(!settings.double_tap_lock);
    assert!(settings.show_idle_indicator);
    assert_eq!(settings.audio_retention_days, 7);
    assert_eq!(settings.hotkey_key, HotkeyKey::RightControl);
}

#[test]
fn the_microphone_defaults_to_whatever_windows_is_using() {
    assert_eq!(Settings::default().preferred_input_device, None);
}

#[test]
fn subscribers_hear_the_changed_key() {
    let mut store = store();
    assert_eq!(flip(&mut store, Toggle::IdleIndicator), "showIdleIndicator");
    assert!(!store.data.show_idle_indicator);
}

#[test]
fn bookkeeping_writes_do_not_notify() {
    let mut store = store();
    assert_eq!(record_gate_trip(&mut store, NOW), None);
    assert_eq!(store.data.gate_trips, vec![NOW]);
}

#[test]
fn only_http_endpoints_override_the_default() {
    assert_eq!(Settings::usable_endpoint(None), None);
    assert_eq!(Settings::usable_endpoint(Some("  ")), None);
    assert_eq!(Settings::usable_endpoint(Some("ftp://x")), None);
    assert_eq!(
        Settings::usable_endpoint(Some("https://example.com/")).as_deref(),
        Some("https://example.com")
    );
}

#[test]
fn gate_trips_expire_after_a_day() {
    let mut store = store();
    store.data.gate_trips = vec![NOW - 25 * HOUR];
    assert_eq!(store.record_gate_trip(NOW), 1);
    assert_eq!(store.record_gate_trip(NOW), 2);
    assert_eq!(store.record_gate_trip(NOW), 3);
}

#[test]
fn re_enabling_the_tone_pass_clears_stale_trips() {
    let mut store = store();
    store.record_gate_trip(NOW);
    store.record_gate_trip(NOW);
    store.set_smart_cleanup_pass(true);
    assert!(store.data.gate_trips.is_empty());
    assert_eq!(store.record_gate_trip(NOW), 1);
}

#[test]
fn model_overrides_apply_only_when_non_empty() {
    let mut settings = Settings::default();
    assert_eq!(settings.gemini_config().transcribe_model, "gemini-3.5-transcribe");
    settings.transcribe_model_override = Some(String::new());
    assert_eq!(settings.gemini_config().transcribe_model, "gemini-3.5-transcribe");
    settings.transcribe_model_override = Some("custom-model".into());
    assert_eq!(settings.gemini_config().transcribe_model, "custom-model");
}

#[test]
fn the_policy_follows_the_switches() {
    let policy = Settings::default().formatting_policy();
    assert_eq!(policy.mode(), TranscriptionMode::Smart);
    assert!(!policy.runs_validation_gate());
    let verbatim = FormattingPolicy { native_smart: false, cleanup_pass: true };
    assert_eq!(verbatim.mode().as_str(), "verbatim");
    assert!(verbatim.runs_validation_gate());
}

#[test]
fn a_blank_key_is_no_key() {
    assert_eq!(api_key(None), None);
    assert_eq!(api_key(Some(" \n".into())), None);
    assert_eq!(api_key(Some("AIza".into())).as_deref(), Some("AIza"));
    assert!(has_api_key(&Some("AIza".into())));
    assert!(!has_api_key(&Some(" ".into())));
}

#[test]
fn each_switch_turns_only_itself() {
    let mut store = store();
    flip(&mut store, Toggle::Sounds);
    assert!(!store.data.sounds_enabled);
    assert!(store.data.show_idle_indicator);
    flip(&mut store, Toggle::Sounds);
    assert!(store.data.sounds_enabled);
}

#[test]
fn choices_are_stored() {
    let mut store = store();
    choose_hotkey(&mut store, HotkeyKey::RightAlt);
    choose_microphone(&mut store, Some("Headset".into()));
    choose_retention(&mut store, RETENTION_CHOICES[0].0);
    assert_eq!(store.data.hotkey_key, HotkeyKey::RightAlt);
    assert_eq!(store.data.preferred_input_device.as_deref(), Some("Headset"));
    assert_eq!(store.data.audio_retention_days, -1);
}

#[test]
fn exactly_the_chosen_microphone_is_marked() {
    let devices = vec!["A".to_string(), "B".to_string()];
    let list = microphone_choices(&devices, &Some("B".into()));
    assert_eq!(list.len(), 3);
    assert!(list[0].device.is_none());
    assert_eq!(list.iter().filter(|c| c.selected).count(), 1);
    assert!(list[2].selected);
}

#[test]
fn a_saved_endpoint_is_the_one_in_use() {
    let mut store = store();
    save_advanced(&mut store, " https://example.com/ ", "m", "");
    let config = store.data.gemini_config();
    assert_eq!(config.endpoint, "https://example.com");
    assert_eq!(config.transcribe_model, "m");
    assert_eq!(config.cleanup_model, "gemini-3.5-flash-lite");
}

#[test]
fn a_typed_key_is_trimmed_and_an_empty_one_explained() {
    assert_eq!(save_api_key("  AIza ").ok().as_deref(), Some("AIza"));
    assert!(save_api_key("  ").is_err());
    assert_eq!(key_checked(KeyCheck::Valid).tone, StatusTone::Good);
    assert_eq!(key_checked(KeyCheck::Rejected(None)).tone, StatusTone::Bad);
}

#[test]
fn a_refused_registry_write_shows_what_is_stored() {
    assert!(autostart_shown(true, true, false));
    assert!(!autostart_shown(true, false, false));
    assert!(autostart_shown(false, false, true));
}

#[test]
fn deleting_everything_takes_two_presses() {
    let mut control = DeleteAll::new();
    assert_eq!(control.question(3), None);
    assert!(!control.press(DeletePress::Confirm) || !control.confirming);
    let mut control = DeleteAll::new();
    assert!(!control.press(DeletePress::Ask));
    assert!(control.question(3).unwrap().contains('3'));
    assert!(!control.press(DeletePress::Cancel));
    assert!(!control.press(DeletePress::Ask));
    assert!(control.press(DeletePress::Confirm));
    assert!(!control.confirming);
}
