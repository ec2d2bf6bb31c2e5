//! What the user can set. Endpoint and model names are overridable because
//! preview models get renamed.

use vstd::prelude::*;

use crate::hotkey::HotkeyKey;
use crate::text::{
    ascii_lowered,
    chars_of,
    has_prefix,
    lowered_ascii,
    opt_text,
    slice_of,
    string_of,
    trim,
    trimmed,
};

verus! {

pub const DEFAULT_ENDPOINT: &'static str = "https://generativelanguage.googleapis.com";

/// A product decision, not a tunable default: no other model is this product. A
/// user can still pin something else.
pub const DEFAULT_TRANSCRIBE_MODEL: &'static str = "gemini-3.5-transcribe";

pub const DEFAULT_CLEANUP_MODEL: &'static str = "gemini-3.5-flash-lite";

/// Endpoint and models in effect.
#[derive(Debug, PartialEq, Eq)]
pub struct GeminiConfig {
    pub endpoint: String,
    pub transcribe_model: String,
    pub cleanup_model: String,
}

impl Clone for GeminiConfig {
    fn clone(&self) -> (copy: Self)
        ensures
            copy.endpoint@ == self.endpoint@,
            copy.transcribe_model@ == self.transcribe_model@,
            copy.cleanup_model@ == self.cleanup_model@,
    {
        GeminiConfig {
            endpoint: self.endpoint.clone(),
            transcribe_model: self.transcribe_model.clone(),
            cleanup_model: self.cleanup_model.clone(),
        }
    }
}

impl Default for GeminiConfig {
    fn default() -> (config: Self)
        ensures
            config.endpoint@ == DEFAULT_ENDPOINT@,
            config.transcribe_model@ == DEFAULT_TRANSCRIBE_MODEL@,
            config.cleanup_model@ == DEFAULT_CLEANUP_MODEL@,
    {
        GeminiConfig {
            endpoint: DEFAULT_ENDPOINT.to_owned(),
            transcribe_model: DEFAULT_TRANSCRIBE_MODEL.to_owned(),
            cleanup_model: DEFAULT_CLEANUP_MODEL.to_owned(),
        }
    }
}

/// How a dictation gets formatted. Two independent flags, because all four
/// combinations are meaningful.
#[derive(Debug, Clone, Copy, PartialEq, Eq, Structural)]
pub struct FormattingPolicy {
    pub native_smart: bool,
    pub cleanup_pass: bool,
}

impl FormattingPolicy {
    pub open spec fn mode_of(self) -> TranscriptionMode {
        if self.native_smart {
            TranscriptionMode::Smart
        } else {
            TranscriptionMode::Verbatim
        }
    }

    pub fn mode(self) -> (mode: TranscriptionMode)
        ensures
            mode == self.mode_of(),
    {
        if self.native_smart {
            TranscriptionMode::Smart
        } else {
            TranscriptionMode::Verbatim
        }
    }

    /// The validation only has a real reference to compare with when a second model
    /// actually rewrote the text.
    pub fn runs_validation_gate(self) -> (runs: bool)
        ensures
            runs == self.cleanup_pass,
    {
        self.cleanup_pass
    }
}

/// How the transcription model formats its output.
#[derive(Debug, Clone, Copy, PartialEq, Eq, Structural)]
pub enum TranscriptionMode {
    /// Exactly what was said, punctuated.
    Verbatim,
    /// Fillers removed, self-corrections collapsed, lists formatted.
    Smart,
}

impl TranscriptionMode {
    pub open spec fn label(self) -> Seq<char> {
        match self {
            TranscriptionMode::Verbatim => "verbatim"@,
            TranscriptionMode::Smart => "smart"@,
        }
    }

    pub fn as_str(self) -> (s: &'static str)
        ensures
            s@ == self.label(),
    {
        match self {
            TranscriptionMode::Verbatim => "verbatim",
            TranscriptionMode::Smart => "smart",
        }
    }
}

#[derive(Debug)]
pub struct Settings {
    /// A deliberate "I'll add it later" must not re-trap the user in the wizard
    /// at every launch.
    pub has_completed_onboarding: bool,
    pub endpoint_override: Option<String>,
    pub transcribe_model_override: Option<String>,
    pub cleanup_model_override: Option<String>,
    /// Double-tap the dictation key to lock hands-free.
    pub double_tap_lock: bool,
    /// Show the resting dot at the bottom of the screen when idle.
    pub show_idle_indicator: bool,
    pub sounds_enabled: bool,
    pub hotkey_key: HotkeyKey,
    /// The microphone to record from, by name. `None` follows the system's
    /// default.
    pub preferred_input_device: Option<String>,
    pub smart_transcription: bool,
    /// The opt-in second pass through the cleanup model, which carries per-app
    /// tone.
    pub smart_cleanup_pass: bool,
    /// Escape hatch to the older transport: verbatim plus the optional tone pass.
    pub legacy_transcribe_endpoint: bool,
    /// Judge speech relative to the room instead of against fixed thresholds.
    pub experimental_noise_handling: bool,
    /// Days to keep audio files; 0 keeps them forever.
    pub audio_retention_days: i64,
    /// When the validation gate tripped, in nanoseconds since the Unix epoch.
    pub gate_trips: Vec<i128>,
}

pub struct SettingsView {
    pub has_completed_onboarding: bool,
    pub endpoint_override: Option<Seq<char>>,
    pub transcribe_model_override: Option<Seq<char>>,
    pub cleanup_model_override: Option<Seq<char>>,
    pub double_tap_lock: bool,
    pub show_idle_indicator: bool,
    pub sounds_enabled: bool,
    pub hotkey_key: HotkeyKey,
    pub preferred_input_device: Option<Seq<char>>,
    pub smart_transcription: bool,
    pub smart_cleanup_pass: bool,
    pub legacy_transcribe_endpoint: bool,
    pub experimental_noise_handling: bool,
    pub audio_retention_days: int,
    pub gate_trips: Seq<i128>,
}

impl View for Settings {
    type V = SettingsView;

    open spec fn view(&self) -> SettingsView {
        SettingsView {
            has_completed_onboarding: self.has_completed_onboarding,
            endpoint_override: opt_text(self.endpoint_override),
            transcribe_model_override: opt_text(self.transcribe_model_override),
            cleanup_model_override: opt_text(self.cleanup_model_override),
            double_tap_lock: self.double_tap_lock,
            show_idle_indicator: self.show_idle_indicator,
            sounds_enabled: self.sounds_enabled,
            hotkey_key: self.hotkey_key,
            preferred_input_device: opt_text(self.preferred_input_device),
            smart_transcription: self.smart_transcription,
            smart_cleanup_pass: self.smart_cleanup_pass,
            legacy_transcribe_endpoint: self.legacy_transcribe_endpoint,
            experimental_noise_handling: self.experimental_noise_handling,
            audio_retention_days: self.audio_retention_days as int,
            gate_trips: self.gate_trips@,
        }
    }
}

impl SettingsView {
    /// What the program ships with.
    pub open spec fn shipped() -> SettingsView {
        SettingsView {
            has_completed_onboarding: false,
            endpoint_override: None,
            transcribe_model_override: None,
            cleanup_model_override: None,
            double_tap_lock: false,
            show_idle_indicator: true,
            sounds_enabled: true,
            hotkey_key: HotkeyKey::RightControl,
            preferred_input_device: None,
            smart_transcription: true,
            smart_cleanup_pass: false,
            legacy_transcribe_endpoint: false,
            experimental_noise_handling: false,
            audio_retention_days: 7,
            gate_trips: Seq::empty(),
        }
    }
}

impl Default for Settings {
    fn default() -> (settings: Self)
        ensures
            settings@ == SettingsView::shipped(),
    {
        Settings {
            has_completed_onboarding: false,
            endpoint_override: None,
            transcribe_model_override: None,
            cleanup_model_override: None,
            double_tap_lock: false,
            show_idle_indicator: true,
            sounds_enabled: true,
            hotkey_key: HotkeyKey::RightControl,
            preferred_input_device: None,
            smart_transcription: true,
            smart_cleanup_pass: false,
            legacy_transcribe_endpoint: false,
            experimental_noise_handling: false,
            audio_retention_days: 7,
            gate_trips: Vec::new(),
        }
    }
}

/// Without the slashes it ends in.
pub open spec fn unslashed(s: Seq<char>) -> Seq<char>
    decreases s.len(),
{
    if s.len() > 0 && s.last() == '/' {
        unslashed(s.drop_last())
    } else {
        s
    }
}

/// Whether an endpoint is one that can be talked to.
pub open spec fn is_web(s: Seq<char>) -> bool {
    ||| "http://"@.is_prefix_of(ascii_lowered(s))
    ||| "https://"@.is_prefix_of(ascii_lowered(s))
}

/// The endpoint that an override stands for; none if it cannot be used.
pub open spec fn endpoint_of(raw: Option<Seq<char>>) -> Option<Seq<char>> {
    match raw {
        Some(raw) => if trim(raw).len() > 0 && is_web(trim(raw)) {
            Some(unslashed(trim(raw)))
        } else {
            None
        },
        None => None,
    }
}

/// The override if there is one with something in it, else the default.
pub open spec fn override_or(raw: Option<Seq<char>>, default: Seq<char>) -> Seq<char> {
    match raw {
        Some(model) => if model.len() > 0 {
            model
        } else {
            default
        },
        None => default,
    }
}

fn overridden(raw: &Option<String>, default: String) -> (model: String)
    ensures
        model@ == override_or(opt_text(*raw), default@),
{
    match raw {
        Some(model) => {
            if chars_of(model.as_str()).len() > 0 {
                model.clone()
            } else {
                default
            }
        },
        None => default,
    }
}

impl SettingsView {
    /// Whether this is the configuration in effect.
    pub open spec fn configures(self, config: GeminiConfig) -> bool {
        &&& config.endpoint@ == (match endpoint_of(self.endpoint_override) {
            Some(endpoint) => endpoint,
            None => DEFAULT_ENDPOINT@,
        })
        &&& config.transcribe_model@ == override_or(
            self.transcribe_model_override,
            DEFAULT_TRANSCRIBE_MODEL@,
        )
        &&& config.cleanup_model@ == override_or(
            self.cleanup_model_override,
            DEFAULT_CLEANUP_MODEL@,
        )
    }

    pub open spec fn policy(self) -> FormattingPolicy {
        FormattingPolicy {
            native_smart: self.smart_transcription,
            cleanup_pass: self.smart_cleanup_pass,
        }
    }
}

impl Settings {
    /// Single source of truth for whether an endpoint override can be used: a
    /// warning on screen and the effective configuration must not disagree.
    pub fn usable_endpoint(raw: Option<&str>) -> (endpoint: Option<String>)
        ensures
            opt_text(endpoint) == endpoint_of(
                match raw {
                    Some(raw) => Some(raw@),
                    None => None,
                },
            ),
    {
        let raw = match raw {
            Some(raw) => trimmed(&chars_of(raw)),
            None => {
                return None;
            },
        };
        if raw.len() == 0 {
            return None;
        }
        let lowered = lowered_ascii(&raw);
        if !has_prefix(&lowered, &chars_of("http://")) && !has_prefix(
            &lowered,
            &chars_of("https://"),
        ) {
            return None;
        }
        let mut to: usize = raw.len();
        assert(raw@.take(to as int) =~= raw@);
        while to > 0 && raw[to - 1] == '/'
            invariant
                to <= raw@.len(),
                unslashed(raw@) == unslashed(raw@.take(to as int)),
            decreases to,
        {
            assert(raw@.take(to as int).drop_last() =~= raw@.take(to - 1));
            to -= 1;
        }
        let kept = slice_of(&raw, 0, to);
        assert(kept@ =~= raw@.take(to as int));
        Some(string_of(&kept))
    }

    pub fn gemini_config(&self) -> (config: GeminiConfig)
        ensures
            self@.configures(config),
    {
        let usable = match &self.endpoint_override {
            Some(raw) => Self::usable_endpoint(Some(raw.as_str())),
            None => None,
        };
        let endpoint = match usable {
            Some(endpoint) => endpoint,
            None => DEFAULT_ENDPOINT.to_owned(),
        };
        GeminiConfig {
            endpoint,
            transcribe_model: overridden(
                &self.transcribe_model_override,
                DEFAULT_TRANSCRIBE_MODEL.to_owned(),
            ),
            cleanup_model: overridden(
                &self.cleanup_model_override,
                DEFAULT_CLEANUP_MODEL.to_owned(),
            ),
        }
    }

    pub fn formatting_policy(&self) -> (policy: FormattingPolicy)
        ensures
            policy == self@.policy(),
    {
        FormattingPolicy {
            native_smart: self.smart_transcription,
            cleanup_pass: self.smart_cleanup_pass,
        }
    }
}

/// A day in nanoseconds.
pub const DAY: i128 = 86_400_000_000_000;

/// This many trips in a day mean that cleanup cannot be trusted right now.
pub const TRIP_LIMIT: usize = 3;

/// The trips of the day before `now`.
pub open spec fn recent(trips: Seq<i128>, now: int) -> Seq<i128> {
    crate::rank::picked(trips, |t: i128| now - t < DAY)
}

impl SettingsView {
    /// After a trip of the validation: those of the day before are remembered.
    pub open spec fn tripped(self, now: i128) -> SettingsView {
        SettingsView { gate_trips: recent(self.gate_trips, now as int).push(now), ..self }
    }

    /// With the tone pass turned on or off. Turning it on forgets every trip.
    pub open spec fn with_cleanup_pass(self, enabled: bool) -> SettingsView {
        SettingsView {
            smart_cleanup_pass: enabled,
            gate_trips: if enabled {
                Seq::empty()
            } else {
                self.gate_trips
            },
            ..self
        }
    }

    /// Whether so many trips turn the tone pass off.
    pub open spec fn degrades(self, trips: nat) -> bool {
        trips >= TRIP_LIMIT && self.smart_cleanup_pass
    }

    pub open spec fn degraded(self, trips: nat) -> SettingsView {
        SettingsView {
            smart_cleanup_pass: self.smart_cleanup_pass && !self.degrades(trips),
            ..self
        }
    }
}

/// Whether a trip lies within the day before `now`, or ahead of it.
fn is_recent(trip: i128, now: i128) -> (yes: bool)
    ensures
        yes == (now - trip < DAY),
{
    match now.checked_sub(DAY) {
        Some(limit) => trip > limit,
        None => true,
    }
}

/// The settings as they are kept. Each change says which setting the surfaces
/// are told of; bookkeeping that no surface renders tells nobody.
#[derive(Debug)]
pub struct SettingsStore {
    pub data: Settings,
}

impl SettingsStore {
    pub fn new(data: Settings) -> (store: Self)
        ensures
            store.data == data,
    {
        SettingsStore { data }
    }

    /// Records a trip of the validation gate and returns how many happened in
    /// the last day.
    pub fn record_gate_trip(&mut self, now: i128) -> (count: usize)
        ensures
            final(self).data@ == old(self).data@.tripped(now),
            count == final(self).data@.gate_trips.len(),
    {
        let ghost passes = |t: i128| now - t < DAY;
        let ghost trips = self.data.gate_trips@;
        let mut kept: Vec<i128> = Vec::new();
        let mut i: usize = 0;
        assert(trips.take(0) =~= Seq::<i128>::empty());
        while i < self.data.gate_trips.len()
            invariant
                i <= self.data.gate_trips@.len(),
                trips == self.data.gate_trips@,
                self.data@ == old(self).data@,
                passes == (|t: i128| now - t < DAY),
                kept@.len() <= i,
                kept@ == crate::rank::picked(trips.take(i as int), passes),
            decreases self.data.gate_trips@.len() - i,
        {
            let trip = self.data.gate_trips[i];
            assert(trips.take(i + 1).drop_last() =~= trips.take(i as int));
            assert(trips.take(i + 1).last() == trip);
            if is_recent(trip, now) {
                kept.push(trip);
            }
            i += 1;
        }
        assert(trips.take(trips.len() as int) =~= trips);
        kept.push(now);
        let count: usize = kept.len();
        self.data.gate_trips = kept;
        count
    }

    /// Turns the tone pass on or off. Turning it on is a clean slate: one stale
    /// trip would instantly turn it off again.
    pub fn set_smart_cleanup_pass(&mut self, enabled: bool) -> (announced: &'static str)
        ensures
            final(self).data@ == old(self).data@.with_cleanup_pass(enabled),
            announced@ == "smartCleanupPass"@,
    {
        if enabled {
            self.data.gate_trips = Vec::new();
        }
        self.data.smart_cleanup_pass = enabled;
        "smartCleanupPass"
    }

    /// Turns the tone pass off by itself once the validation has tripped too often.
    /// The user loses an extra, not words.
    pub fn degrade_after(&mut self, trips: usize) -> (announced: Option<&'static str>)
        ensures
            final(self).data@ == old(self).data@.degraded(trips as nat),
            match announced {
                Some(key) => old(self).data@.degrades(trips as nat) && key@
                    == "smartFormattingAutoDegraded"@,
                None => !old(self).data@.degrades(trips as nat),
            },
    {
        if trips >= TRIP_LIMIT && self.data.smart_cleanup_pass {
            self.data.smart_cleanup_pass = false;
            Some("smartFormattingAutoDegraded")
        } else {
            None
        }
    }
}

/// Turning the tone pass on again is a clean slate: the next trip is the first,
/// whatever came before, and neither it nor the one after turns the pass off.
pub proof fn re_enabling_is_a_clean_slate(settings: SettingsView, first: i128, second: i128)
    ensures
        ({
            let once = settings.with_cleanup_pass(true).tripped(first);
            let twice = once.tripped(second);
            &&& once.gate_trips == seq![first]
            &&& !once.degrades(once.gate_trips.len())
            &&& !twice.degrades(twice.gate_trips.len())
            &&& twice.smart_cleanup_pass
        }),
{
    let once = settings.with_cleanup_pass(true).tripped(first);
    assert(recent(Seq::<i128>::empty(), first as int) =~= Seq::empty());
    crate::rank::lemma_picked(once.gate_trips, |t: i128| second - t < DAY);
}

/// Three trips in a day turn the tone pass off, and nothing else does.
pub proof fn the_third_trip_turns_the_pass_off(settings: SettingsView, now: i128)
    requires
        settings.smart_cleanup_pass,
    ensures
        ({
            let tripped = settings.tripped(now);
            tripped.degraded(tripped.gate_trips.len()).smart_cleanup_pass <==> recent(
                settings.gate_trips,
                now as int,
            ).len() < 2
        }),
{
}

/// A trip is forgotten after a day and not before.
pub proof fn trips_expire_after_a_day(trips: Seq<i128>, now: int, i: int)
    requires
        0 <= i < trips.len(),
    ensures
        now - trips[i] < DAY ==> recent(trips, now).contains(trips[i]),
        forall|k: int|
            0 <= k < recent(trips, now).len() ==> now - #[trigger] recent(trips, now)[k] < DAY,
{
    let passes = |t: i128| now - t < DAY;
    crate::rank::lemma_picked(trips, passes);
    if passes(trips[i]) {
        crate::rank::lemma_picks_all(trips, passes, i);
    }
}

/// An override that cannot be used never changes the endpoint.
pub proof fn only_web_endpoints_override(raw: Seq<char>)
    requires
        !is_web(trim(raw)),
    ensures
        endpoint_of(Some(raw)) is None,
{
}

/// A usable override is the endpoint, without the white space around it and the
/// slashes it ends in; anything else leaves the one that is shipped. A model is
/// overridden by any name that is not empty.
pub proof fn an_override_takes_effect(settings: Settings, config: GeminiConfig)
    requires
        call_ensures(Settings::gemini_config, (&settings,), config),
    ensures
        settings.endpoint_override is None ==> config.endpoint@
            == "https://generativelanguage.googleapis.com"@,
        settings.endpoint_override matches Some(raw) ==> {
            let typed = trim(raw@);
            let web = "http://"@.is_prefix_of(ascii_lowered(typed)) || "https://"@.is_prefix_of(
                ascii_lowered(typed),
            );
            &&& !web ==> config.endpoint@ == "https://generativelanguage.googleapis.com"@
            &&& web ==> config.endpoint@.is_prefix_of(typed) && (config.endpoint@.len() > 0
                ==> config.endpoint@.last() != '/') && (forall|i: int|
                config.endpoint@.len() <= i < typed.len() ==> #[trigger] typed[i] == '/')
        },
        settings.transcribe_model_override is None ==> config.transcribe_model@
            == "gemini-3.5-transcribe"@,
        settings.cleanup_model_override is None ==> config.cleanup_model@
            == "gemini-3.5-flash-lite"@,
        settings.transcribe_model_override matches Some(model) ==> (model@.len() > 0
            ==> config.transcribe_model@ == model@),
        settings.cleanup_model_override matches Some(model) ==> (model@.len() > 0
            ==> config.cleanup_model@ == model@),
{
    reveal_strlit("http://");
    reveal_strlit("https://");
    if settings.endpoint_override is Some {
        let typed = trim((settings.endpoint_override->0)@);
        lemma_unslashed(typed);
        assert(ascii_lowered(typed).len() == typed.len());
    }
}

proof fn lemma_unslashed(s: Seq<char>)
    ensures
        unslashed(s).is_prefix_of(s),
        unslashed(s).len() > 0 ==> unslashed(s).last() != '/',
        forall|i: int| unslashed(s).len() <= i < s.len() ==> #[trigger] s[i] == '/',
    decreases s.len(),
{
    if s.len() > 0 && s.last() == '/' {
        let less = s.drop_last();
        lemma_unslashed(less);
        assert forall|i: int| unslashed(s).len() <= i < s.len() implies #[trigger] s[i] == '/' by {
            if i < less.len() {
                assert(less[i] == s[i]);
            }
        }
        assert(unslashed(s) =~= s.take(unslashed(s).len() as int)) by {
            assert(unslashed(s) == less.take(unslashed(s).len() as int));
        }
    }
}

/// The two switches of formatting are the two of the settings: the mode that is
/// asked for, and whether a second model rewrites the text and is held to the
/// validation.
pub proof fn formatting_follows_the_settings(
    settings: Settings,
    policy: FormattingPolicy,
    mode: TranscriptionMode,
    gated: bool,
)
    requires
        call_ensures(Settings::formatting_policy, (&settings,), policy),
        call_ensures(FormattingPolicy::mode, (policy,), mode),
        call_ensures(FormattingPolicy::runs_validation_gate, (policy,), gated),
    ensures
        mode is Smart <==> settings.smart_transcription,
        gated <==> settings.smart_cleanup_pass,
        policy.cleanup_pass <==> settings.smart_cleanup_pass,
{
}

/// The third rejection within a day turns the tone pass off, once; before that, and
/// with the pass off already, nothing is turned off.
pub proof fn rejections_add_up_over_a_day(settings: SettingsView, now: i128, trips: nat)
    ensures
        settings.tripped(now).gate_trips.last() == now,
        settings.tripped(now).smart_cleanup_pass == settings.smart_cleanup_pass,
        (forall|i: int|
            0 <= i < settings.gate_trips.len() ==> now - #[trigger] settings.gate_trips[i]
                >= 86_400_000_000_000) ==> settings.tripped(now).gate_trips == seq![now],
        settings.degrades(trips) <==> settings.smart_cleanup_pass && trips >= 3,
        settings.degraded(trips).smart_cleanup_pass <==> settings.smart_cleanup_pass && trips < 3,
        settings.degraded(trips).gate_trips == settings.gate_trips,
        settings.degraded(trips).smart_transcription == settings.smart_transcription,
        settings.with_cleanup_pass(false).gate_trips == settings.gate_trips,
        !settings.with_cleanup_pass(false).smart_cleanup_pass,
{
    let passes = |t: i128| now - t < DAY;
    crate::rank::lemma_picked(settings.gate_trips, passes);
    let kept = recent(settings.gate_trips, now as int);
    if forall|i: int|
        0 <= i < settings.gate_trips.len() ==> now - #[trigger] settings.gate_trips[i]
            >= 86_400_000_000_000 {
        if kept.len() > 0 {
            assert(passes(kept[0]) && settings.gate_trips.contains(kept[0]));
        }
        assert(settings.tripped(now).gate_trips =~= seq![now]);
    }
}

} // verus!
