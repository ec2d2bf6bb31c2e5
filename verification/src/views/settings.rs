//! The settings' window: the dictation key, what the pill shows, how a transcript
//! is formatted, how long audio is kept, and the escape hatches.

use vstd::prelude::*;

use crate::gemini::{KeyCheck, KeyCheckView};
use crate::hotkey::HotkeyKey;
use crate::settings::{endpoint_of, Settings, SettingsStore, SettingsView};
use crate::text::{
    chars_of,
    decimal,
    decimal_of,
    opt_text,
    same_text,
    string_of,
    texts,
    trim,
    trimmed,
};
use crate::views::onboarding::{typed_key, SaveKey};
use crate::views::widgets::{ButtonKind, Said, SaidView, StatusTone};

verus! {

/// How long audio can be kept, in days, in the order they read as a sentence.
pub const RETENTION_CHOICES: [(i64, &'static str); 4] = [
    (-1, "Never keep"),
    (7, "7 days"),
    (30, "30 days"),
    (0, "Forever"),
];

/// The switches.
#[derive(Debug, Clone, Copy, PartialEq, Eq, Structural)]
pub enum Toggle {
    IdleIndicator,
    Sounds,
    DoubleTap,
    SmartTranscription,
    TonePass,
    NoiseHandling,
    LegacyEndpoint,
}

impl Toggle {
    /// What subscribers are told when a switch is flipped.
    pub open spec fn key(self) -> Seq<char> {
        match self {
            Toggle::IdleIndicator => "showIdleIndicator"@,
            Toggle::Sounds => "soundsEnabled"@,
            Toggle::DoubleTap => "doubleTapLock"@,
            Toggle::SmartTranscription => "smartTranscription"@,
            Toggle::TonePass => "smartCleanupPass"@,
            Toggle::NoiseHandling => "experimentalNoiseHandling"@,
            Toggle::LegacyEndpoint => "legacyTranscribeEndpoint"@,
        }
    }

    pub open spec fn is_on(self, settings: SettingsView) -> bool {
        match self {
            Toggle::IdleIndicator => settings.show_idle_indicator,
            Toggle::Sounds => settings.sounds_enabled,
            Toggle::DoubleTap => settings.double_tap_lock,
            Toggle::SmartTranscription => settings.smart_transcription,
            Toggle::TonePass => settings.smart_cleanup_pass,
            Toggle::NoiseHandling => settings.experimental_noise_handling,
            Toggle::LegacyEndpoint => settings.legacy_transcribe_endpoint,
        }
    }

    /// The settings with the switch flipped. Turning the tone pass on is a clean
    /// slate for its trips.
    pub open spec fn flipped(self, settings: SettingsView) -> SettingsView {
        match self {
            Toggle::IdleIndicator => SettingsView {
                show_idle_indicator: !settings.show_idle_indicator,
                ..settings
            },
            Toggle::Sounds => SettingsView {
                sounds_enabled: !settings.sounds_enabled,
                ..settings
            },
            Toggle::DoubleTap => SettingsView {
                double_tap_lock: !settings.double_tap_lock,
                ..settings
            },
            Toggle::SmartTranscription => SettingsView {
                smart_transcription: !settings.smart_transcription,
                ..settings
            },
            Toggle::TonePass => SettingsView {
                smart_cleanup_pass: !settings.smart_cleanup_pass,
                gate_trips: if settings.smart_cleanup_pass {
                    settings.gate_trips
                } else {
                    Seq::empty()
                },
                ..settings
            },
            Toggle::NoiseHandling => SettingsView {
                experimental_noise_handling: !settings.experimental_noise_handling,
                ..settings
            },
            Toggle::LegacyEndpoint => SettingsView {
                legacy_transcribe_endpoint: !settings.legacy_transcribe_endpoint,
                ..settings
            },
        }
    }
}

/// Flips a switch, and returns what subscribers are told.
pub fn flip(settings: &mut SettingsStore, toggle: Toggle) -> (announced: &'static str)
    ensures
        final(settings).data@ == toggle.flipped(old(settings).data@),
        announced@ == toggle.key(),
{
    match toggle {
        Toggle::IdleIndicator => {
            settings.data.show_idle_indicator = !settings.data.show_idle_indicator;
            "showIdleIndicator"
        },
        Toggle::Sounds => {
            settings.data.sounds_enabled = !settings.data.sounds_enabled;
            "soundsEnabled"
        },
        Toggle::DoubleTap => {
            settings.data.double_tap_lock = !settings.data.double_tap_lock;
            "doubleTapLock"
        },
        Toggle::SmartTranscription => {
            settings.data.smart_transcription = !settings.data.smart_transcription;
            "smartTranscription"
        },
        Toggle::TonePass => {
            let next = !settings.data.smart_cleanup_pass;
            settings.set_smart_cleanup_pass(next)
        },
        Toggle::NoiseHandling => {
            settings.data.experimental_noise_handling = !settings.data.experimental_noise_handling;
            "experimentalNoiseHandling"
        },
        Toggle::LegacyEndpoint => {
            settings.data.legacy_transcribe_endpoint = !settings.data.legacy_transcribe_endpoint;
            "legacyTranscribeEndpoint"
        },
    }
}

pub fn choose_hotkey(settings: &mut SettingsStore, key: HotkeyKey) -> (announced: &'static str)
    ensures
        final(settings).data@ == (SettingsView { hotkey_key: key, ..old(settings).data@ }),
        announced@ == "hotkeyKey"@,
{
    settings.data.hotkey_key = key;
    "hotkeyKey"
}

pub fn choose_microphone(settings: &mut SettingsStore, device: Option<String>) -> (announced:
    &'static str)
    ensures
        final(settings).data@ == (SettingsView {
            preferred_input_device: opt_text(device),
            ..old(settings).data@
        }),
        announced@ == "preferredInputDevice"@,
{
    settings.data.preferred_input_device = device;
    "preferredInputDevice"
}

pub fn choose_retention(settings: &mut SettingsStore, days: i64) -> (announced: &'static str)
    ensures
        final(settings).data@ == (SettingsView {
            audio_retention_days: days as int,
            ..old(settings).data@
        }),
        announced@ == "audioRetentionDays"@,
{
    settings.data.audio_retention_days = days;
    "audioRetentionDays"
}

/// How a choice that is or is not the current one looks.
pub fn choice_kind(selected: bool) -> (kind: ButtonKind)
    ensures
        kind == (if selected {
            ButtonKind::Primary
        } else {
            ButtonKind::Secondary
        }),
{
    if selected {
        ButtonKind::Primary
    } else {
        ButtonKind::Secondary
    }
}

/// A microphone to choose. No device stands for the system's default.
#[derive(Debug)]
pub struct MicrophoneChoice {
    pub device: Option<String>,
    pub label: String,
    pub selected: bool,
}

pub struct MicrophoneChoiceView {
    pub device: Option<Seq<char>>,
    pub label: Seq<char>,
    pub selected: bool,
}

impl View for MicrophoneChoice {
    type V = MicrophoneChoiceView;

    open spec fn view(&self) -> MicrophoneChoiceView {
        MicrophoneChoiceView {
            device: opt_text(self.device),
            label: self.label@,
            selected: self.selected,
        }
    }
}

/// A device as a choice.
pub open spec fn microphone(device: Option<Seq<char>>, chosen: Option<Seq<char>>) ->
    MicrophoneChoiceView {
    MicrophoneChoiceView {
        device,
        label: match device {
            Some(name) => name,
            None => "System default"@,
        },
        selected: chosen == device,
    }
}

pub open spec fn choice_views(list: Seq<MicrophoneChoice>) -> Seq<MicrophoneChoiceView> {
    list.map_values(|c: MicrophoneChoice| c@)
}

/// The default, then every device.
pub fn microphone_choices(devices: &Vec<String>, chosen: &Option<String>) -> (list: Vec<
    MicrophoneChoice,
>)
    ensures
        choice_views(list@) == seq![microphone(None, opt_text(*chosen))] + texts(
            devices@,
        ).map_values(|name: Seq<char>| microphone(Some(name), opt_text(*chosen))),
{
    let mut list: Vec<MicrophoneChoice> = Vec::new();
    list.push(
        MicrophoneChoice {
            device: None,
            label: "System default".to_owned(),
            selected: chosen.is_none(),
        },
    );
    let mut i: usize = 0;
    while i < devices.len()
        invariant
            i <= devices@.len(),
            list@.len() == i + 1,
            list@[0]@ == microphone(None, opt_text(*chosen)),
            forall|k: int|
                0 <= k < i ==> (#[trigger] list@[k + 1])@ == microphone(
                    Some(devices@[k]@),
                    opt_text(*chosen),
                ),
        decreases devices@.len() - i,
    {
        let selected = match chosen {
            Some(name) => same_text(name.as_str(), devices[i].as_str()),
            None => false,
        };
        let ghost before = list@;
        list.push(
            MicrophoneChoice {
                device: Some(devices[i].clone()),
                label: devices[i].clone(),
                selected,
            },
        );
        proof {
            assert(list@[i + 1]@ == microphone(Some(devices@[i as int]@), opt_text(*chosen)));
            assert forall|k: int| 0 <= k < i + 1 implies (#[trigger] list@[k + 1])@ == microphone(
                Some(devices@[k]@),
                opt_text(*chosen),
            ) by {
                if k < i {
                    assert(list@[k + 1] == before[k + 1]);
                }
            }
        }
        i += 1;
    }
    proof {
        let goal = seq![microphone(None, opt_text(*chosen))] + texts(devices@).map_values(
            |name: Seq<char>| microphone(Some(name), opt_text(*chosen)),
        );
        assert forall|k: int| 0 <= k < goal.len() implies #[trigger] choice_views(list@)[k]
            == goal[k] by {
            if k > 0 {
                assert(list@[(k - 1) + 1]@ == microphone(
                    Some(devices@[k - 1]@),
                    opt_text(*chosen),
                ));
            }
        }
        assert(choice_views(list@) =~= goal);
    }
    list
}

/// What is said of a key that was checked. A network that could not be reached is
/// never blamed on the key.
pub open spec fn key_said(check: KeyCheckView) -> SaidView {
    match check {
        KeyCheckView::Valid => SaidView { words: "Key works"@, tone: StatusTone::Good },
        KeyCheckView::Rejected(detail) => SaidView {
            words: match detail {
                Some(detail) => detail,
                None => "Google rejected this key"@,
            },
            tone: StatusTone::Bad,
        },
        KeyCheckView::Unreachable => SaidView {
            words: "Saved, but Google was unreachable — it will be used anyway"@,
            tone: StatusTone::Neutral,
        },
    }
}

pub fn key_checked(check: KeyCheck) -> (said: Said)
    ensures
        said@ == key_said(check@),
{
    match check {
        KeyCheck::Valid => Said::new("Key works", StatusTone::Good),
        KeyCheck::Rejected(detail) => {
            let words = match detail {
                Some(detail) => detail,
                None => "Google rejected this key".to_owned(),
            };
            Said { words, tone: StatusTone::Bad }
        },
        KeyCheck::Unreachable => Said::new(
            "Saved, but Google was unreachable — it will be used anyway",
            StatusTone::Neutral,
        ),
    }
}

/// The key to store, or what is said if there is none.
pub fn save_api_key(typed: &str) -> (save: Result<String, Said>)
    ensures
        match save {
            Ok(key) => key@ == trim(typed@) && key@.len() > 0,
            Err(said) => trim(typed@).len() == 0 && said@ == (SaidView {
                words: "Nothing to save — paste a key first"@,
                tone: StatusTone::Bad,
            }),
        },
{
    match typed_key(typed) {
        SaveKey::Store(key) => Ok(key),
        SaveKey::Empty => Err(Said::new("Nothing to save — paste a key first", StatusTone::Bad)),
    }
}

/// The credential store answered; if it took the key, the key is checked.
pub fn key_stored(stored: bool) -> (said: Said)
    ensures
        said@ == (if stored {
            SaidView { words: "Saved — checking it works…"@, tone: StatusTone::Neutral }
        } else {
            SaidView {
                words: "Windows Credential Manager refused the key"@,
                tone: StatusTone::Bad,
            }
        }),
{
    if stored {
        Said::new("Saved — checking it works…", StatusTone::Neutral)
    } else {
        Said::new("Windows Credential Manager refused the key", StatusTone::Bad)
    }
}

pub fn key_cleared(cleared: bool) -> (said: Said)
    ensures
        said@ == (if cleared {
            SaidView { words: "Key removed from this PC"@, tone: StatusTone::Neutral }
        } else {
            SaidView { words: "Could not remove the key"@, tone: StatusTone::Bad }
        }),
{
    if cleared {
        Said::new("Key removed from this PC", StatusTone::Neutral)
    } else {
        Said::new("Could not remove the key", StatusTone::Bad)
    }
}

/// What is typed, if it is more than blanks.
pub open spec fn typed_override(typed: Seq<char>) -> Option<Seq<char>> {
    if trim(typed).len() == 0 {
        None
    } else {
        Some(trim(typed))
    }
}

/// Whether overrides with this endpoint are saved.
pub open spec fn saves(endpoint: Seq<char>) -> bool {
    typed_override(endpoint) is None || endpoint_of(Some(endpoint)) is Some
}

/// The settings with the overrides that were typed, if they are saved.
pub open spec fn overridden(
    settings: SettingsView,
    endpoint: Seq<char>,
    transcribe_model: Seq<char>,
    cleanup_model: Seq<char>,
) -> SettingsView {
    if saves(endpoint) {
        SettingsView {
            endpoint_override: typed_override(endpoint),
            transcribe_model_override: typed_override(transcribe_model),
            cleanup_model_override: typed_override(cleanup_model),
            ..settings
        }
    } else {
        settings
    }
}

fn override_of(typed: &str) -> (value: Option<String>)
    ensures
        opt_text(value) == typed_override(typed@),
{
    let kept = trimmed(&chars_of(typed));
    if kept.len() == 0 {
        None
    } else {
        Some(string_of(&kept))
    }
}

/// Saves the overrides, unless the endpoint is none that can be used: by the same
/// test as the configuration in effect, so that the two never disagree.
pub fn save_advanced(
    settings: &mut SettingsStore,
    endpoint: &str,
    transcribe_model: &str,
    cleanup_model: &str,
) -> (said: (&'static str, bool))
    ensures
        said.1 == saves(endpoint@),
        said.0@ == (if said.1 {
            "Saved — applies to your next dictation"@
        } else {
            "That endpoint is not an http(s) URL — nothing was saved"@
        }),
        final(settings).data@ == overridden(
            old(settings).data@,
            endpoint@,
            transcribe_model@,
            cleanup_model@,
        ),
{
    let kept = override_of(endpoint);
    if kept.is_some() && Settings::usable_endpoint(Some(endpoint)).is_none() {
        return ("That endpoint is not an http(s) URL — nothing was saved", false);
    }
    settings.data.endpoint_override = kept;
    settings.data.transcribe_model_override = override_of(transcribe_model);
    settings.data.cleanup_model_override = override_of(cleanup_model);
    ("Saved — applies to your next dictation", true)
}

/// What the switch shows after it was used. If the registry refused, it does not
/// claim a state that the machine does not have.
pub fn autostart_shown(wanted: bool, accepted: bool, stored: bool) -> (shown: bool)
    ensures
        shown == (if accepted {
            wanted
        } else {
            stored
        }),
{
    if accepted {
        wanted
    } else {
        stored
    }
}

/// The one control that destroys data with no way back takes two steps.
#[derive(Debug, Clone, Copy, PartialEq, Eq, Structural)]
pub struct DeleteAll {
    pub confirming: bool,
}

/// What a press of one of its buttons does.
#[derive(Debug, Clone, Copy, PartialEq, Eq, Structural)]
pub enum DeletePress {
    Ask,
    Confirm,
    Cancel,
}

/// Whether a press deletes everything, and whether the question is asked then.
pub open spec fn pressed(confirming: bool, press: DeletePress) -> (bool, bool) {
    (press is Confirm && confirming, press is Ask)
}

impl DeleteAll {
    pub fn new() -> (control: Self)
        ensures
            !control.confirming,
    {
        DeleteAll { confirming: false }
    }

    /// Whether everything is deleted now.
    pub fn press(&mut self, press: DeletePress) -> (deletes: bool)
        ensures
            (deletes, final(self).confirming) == pressed(old(self).confirming, press),
    {
        let deletes = press == DeletePress::Confirm && self.confirming;
        self.confirming = press == DeletePress::Ask;
        deletes
    }

    /// The question, while it is asked.
    pub fn question(&self, dictations: usize) -> (words: Option<String>)
        ensures
            opt_text(words) == (if self.confirming {
                Some(
                    "Delete "@ + decimal(dictations as nat)
                        + " saved dictations and every recording? This cannot be undone."@,
                )
            } else {
                None
            }),
    {
        if !self.confirming {
            return None;
        }
        let mut words = "Delete ".to_owned();
        words.append(string_of(&decimal_of(dictations as u128)).as_str());
        words.append(" saved dictations and every recording? This cannot be undone.");
        Some(words)
    }
}

/// Flipping a switch turns it over and no other, and, the trips aside,
/// flipping it twice changes nothing.
pub proof fn switches_are_independent(toggle: Toggle, other: Toggle, settings: SettingsView)
    ensures
        ({
            let once = toggle.flipped(settings);
            let twice = toggle.flipped(once);
            &&& toggle.is_on(once) == !toggle.is_on(settings)
            &&& other != toggle ==> other.is_on(once) == other.is_on(settings)
            &&& twice == (SettingsView { gate_trips: twice.gate_trips, ..settings })
        }),
{
}

/// An endpoint that is saved is one that is used: saving never leaves an override
/// that the configuration would pass over.
pub proof fn a_saved_endpoint_is_in_effect(endpoint: Seq<char>)
    requires
        typed_override(endpoint) is None || endpoint_of(Some(endpoint)) is Some,
    ensures
        typed_override(endpoint) matches Some(kept) ==> endpoint_of(Some(kept)) == endpoint_of(
            Some(endpoint),
        ) && endpoint_of(Some(kept)) is Some,
{
    crate::text::lemma_trim_is_settled(endpoint);
}

/// Overrides are saved whole or not at all: trimmed, an empty one taking the
/// override away, and nothing where the endpoint is no web address.
pub proof fn overrides_are_saved_whole_or_not_at_all(
    settings: SettingsView,
    endpoint: Seq<char>,
    transcribe_model: Seq<char>,
    cleanup_model: Seq<char>,
)
    ensures
        ({
            let after = overridden(settings, endpoint, transcribe_model, cleanup_model);
            let typed = trim(endpoint);
            let good = typed.len() == 0 || crate::settings::is_web(typed);
            &&& saves(endpoint) <==> good
            &&& !good ==> after == settings
            &&& good && typed.len() > 0 ==> after.endpoint_override == Some(typed)
            &&& good && typed.len() == 0 ==> after.endpoint_override is None
            &&& good && trim(transcribe_model).len() > 0 ==> after.transcribe_model_override == Some(
                trim(transcribe_model),
            )
            &&& good && trim(transcribe_model).len() == 0 ==> after.transcribe_model_override
                is None
            &&& good && trim(cleanup_model).len() > 0 ==> after.cleanup_model_override == Some(
                trim(cleanup_model),
            )
            &&& after.smart_transcription == settings.smart_transcription
            &&& after.audio_retention_days == settings.audio_retention_days
            &&& after.hotkey_key == settings.hotkey_key
        }),
{
}

/// Each switch is the one it names.
pub proof fn a_switch_is_the_one_it_names(settings: SettingsView)
    ensures
        Toggle::IdleIndicator.flipped(settings).show_idle_indicator
            == !settings.show_idle_indicator,
        Toggle::Sounds.flipped(settings).sounds_enabled == !settings.sounds_enabled,
        Toggle::DoubleTap.flipped(settings).double_tap_lock == !settings.double_tap_lock,
        Toggle::SmartTranscription.flipped(settings).smart_transcription
            == !settings.smart_transcription,
        Toggle::TonePass.flipped(settings).smart_cleanup_pass == !settings.smart_cleanup_pass,
        !settings.smart_cleanup_pass ==> Toggle::TonePass.flipped(settings).gate_trips.len() == 0,
        Toggle::NoiseHandling.flipped(settings).experimental_noise_handling
            == !settings.experimental_noise_handling,
        Toggle::LegacyEndpoint.flipped(settings).legacy_transcribe_endpoint
            == !settings.legacy_transcribe_endpoint,
        forall|toggle: Toggle| #[trigger]
            toggle.flipped(settings).audio_retention_days == settings.audio_retention_days,
{
}

/// The chosen microphone is the one that is shown as chosen, and the system's
/// default where none is.
pub proof fn the_chosen_microphone_is_shown(
    devices: Vec<String>,
    chosen: Option<String>,
    list: Vec<MicrophoneChoice>,
    i: int,
)
    requires
        call_ensures(microphone_choices, (&devices, &chosen), list),
        0 <= i < devices@.len(),
    ensures
        list@.len() == devices@.len() + 1,
        list@[0]@.device is None,
        list@[0]@.label == "System default"@,
        list@[0]@.selected <==> chosen is None,
        list@[i + 1]@.device == Some(devices@[i]@),
        list@[i + 1]@.label == devices@[i]@,
        list@[i + 1]@.selected <==> (chosen matches Some(name) && name@ == devices@[i]@),
{
    let all = choice_views(list@);
    let rest = texts(devices@).map_values(
        |name: Seq<char>| microphone(Some(name), opt_text(chosen)),
    );
    assert(all.len() == list@.len());
    assert(all[0] == list@[0]@);
    assert(all[i + 1] == list@[i + 1]@);
    assert(all[i + 1] == rest[i]);
    assert(texts(devices@)[i] == devices@[i]@);
}

/// A key that could not be checked is not blamed, and a rejected one is, in the
/// server's words if it has any.
pub proof fn a_key_is_blamed_only_if_rejected(check: KeyCheckView)
    ensures
        key_said(check).tone == StatusTone::Bad <==> check is Rejected,
        key_said(check).tone == StatusTone::Good <==> check is Valid,
        check matches KeyCheckView::Rejected(Some(detail)) ==> key_said(check).words == detail,
{
}

/// Nothing is offered for deletion without the question, which names how many
/// dictations there are.
pub proof fn the_question_names_the_number(
    control: DeleteAll,
    dictations: usize,
    words: Option<String>,
)
    requires
        call_ensures(DeleteAll::question, (&control, dictations), words),
    ensures
        words is Some <==> control.confirming,
        words matches Some(text) ==> text@ == "Delete "@ + decimal(dictations as nat)
            + " saved dictations and every recording? This cannot be undone."@,
{
}

/// Nothing is deleted without the question before it and the answer to it: the
/// first press only asks, and any other takes the question back.
pub proof fn deleting_everything_takes_two_presses(confirming: bool, press: DeletePress)
    ensures
        pressed(confirming, press).0 <==> confirming && press is Confirm,
        !pressed(false, press).0,
        pressed(confirming, DeletePress::Ask) == (false, true),
        !pressed(confirming, DeletePress::Confirm).1,
        pressed(confirming, DeletePress::Cancel) == (false, false),
{
}

} // verus!
