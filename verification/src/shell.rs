//! What ties the key, the coordinator, the pill and the tray together: each
//! event that reaches the program, and what is done about it.

use vstd::prelude::*;

use crate::clock::Duration;
use crate::coordinator::{CoordinatorUpdate, UpdateView};
use crate::hotkey::{step, HotkeyEvent, HotkeyIntent, HotkeyKey, HotkeyProcessor, Phase, Step};
use crate::hotkey_hook::{set_hotkey, set_key_held, set_session_active, HookState};
use crate::levels::{Level, LEVEL_ZERO};
use crate::pill::{
    at_rest,
    projected,
    resting,
    PillModel,
    PillState,
    PillStateView,
    PillView,
};
use crate::sound::{earcon_of, play_transition, Earcon};
use crate::state_machine::{DictationState, SilenceReason};
use crate::text::{chars_of, same_text, words, words_of};
use crate::tray::TrayCommand;

verus! {

/// Nanoseconds between two readings of the clocks while a session is live.
pub const CLOCK_TICK: u128 = 200_000_000;

/// Nanoseconds that an outcome is shown before the pill goes back to rest.
pub const OUTCOME_SHOWN: u128 = 1_600_000_000;

/// What an update asks for besides what it does to the pill.
#[derive(Debug, Clone, Copy, PartialEq, Eq, Structural)]
pub struct HudEffects {
    pub repaint: bool,
    /// Move to the display the user is dictating on.
    pub place: bool,
    pub earcon: Option<Earcon>,
    /// What the keyboard hook is told.
    pub session_active: Option<bool>,
    /// What the tray menu is told.
    pub dictating: Option<bool>,
    /// Go back to rest after `OUTCOME_SHOWN`, if nothing new started.
    pub rest_later: bool,
}

impl HudEffects {
    pub open spec fn none() -> HudEffects {
        HudEffects {
            repaint: false,
            place: false,
            earcon: None,
            session_active: None,
            dictating: None,
            rest_later: false,
        }
    }

    pub open spec fn paint() -> HudEffects {
        HudEffects { repaint: true, ..HudEffects::none() }
    }
}

fn only(repaint: bool) -> (effects: HudEffects)
    ensures
        effects == (HudEffects { repaint, ..HudEffects::none() }),
{
    HudEffects {
        repaint,
        place: false,
        earcon: None,
        session_active: None,
        dictating: None,
        rest_later: false,
    }
}

/// The pill, and what is remembered for it between updates.
#[derive(Debug)]
pub struct HudDriver {
    pub pill: PillView,
    pub silence: SilenceReason,
    pub last_words: usize,
}

pub struct HudModel {
    pub pill: PillModel,
    pub silence: SilenceReason,
    pub last_words: int,
}

impl View for HudDriver {
    type V = HudModel;

    open spec fn view(&self) -> HudModel {
        HudModel { pill: self.pill@, silence: self.silence, last_words: self.last_words as int }
    }
}

/// What the settings say and whether sounds can be played.
#[derive(Debug, Clone, Copy, PartialEq, Eq, Structural)]
pub struct HudSettings {
    pub show_idle_indicator: bool,
    pub sounds_enabled: bool,
    pub player_started: bool,
}

/// A projected state, with the words counted.
pub open spec fn counted(state: PillStateView, words: int) -> PillStateView {
    match state {
        PillStateView::Success { .. } => PillStateView::Success { words: words as usize },
        other => other,
    }
}

impl HudModel {
    /// The pill on entering a state.
    pub open spec fn entered(
        self,
        state: DictationState,
        show_idle_indicator: bool,
        now: i128,
    ) -> PillModel {
        let ended = state.terminal();
        PillModel {
            state: counted(
                projected(state, self.silence, show_idle_indicator),
                self.last_words,
            ),
            level: if ended {
                Level { bits: LEVEL_ZERO }
            } else {
                self.pill.level
            },
            elapsed: self.pill.elapsed,
            slow: self.pill.slow && !ended,
            recording_since: if ended {
                None
            } else if state is Warming {
                Some(now)
            } else {
                self.pill.recording_since
            },
            processing_since: if ended {
                None
            } else if state is Finalizing {
                Some(now)
            } else {
                self.pill.processing_since
            },
        }
    }

    /// What a change of a setting does, and whether to repaint.
    pub open spec fn set(self, key: Seq<char>, state: DictationState, show_idle_indicator: bool) -> (
        HudModel,
        bool,
    ) {
        if key == "showIdleIndicator"@ {
            let shown = projected(state, self.silence, show_idle_indicator);
            (HudModel { pill: PillModel { state: shown, ..self.pill }, ..self }, true)
        } else {
            (self, false)
        }
    }

    /// Back to rest, if nothing new started, and whether to repaint.
    pub open spec fn rested(self, state: DictationState, show_idle_indicator: bool) -> (
        HudModel,
        bool,
    ) {
        if state.terminal() {
            let shown = resting(show_idle_indicator);
            (HudModel { pill: PillModel { state: shown, ..self.pill }, ..self }, true)
        } else {
            (self, false)
        }
    }

    /// What an update does.
    pub open spec fn after(self, update: UpdateView, settings: HudSettings, now: i128) -> (
        HudModel,
        HudEffects,
    ) {
        match update {
            UpdateView::MicLevel(level) => (
                HudModel { pill: PillModel { level, ..self.pill }, ..self },
                HudEffects::paint(),
            ),
            UpdateView::SilenceReason(silence) => (HudModel { silence, ..self }, HudEffects::none()),
            UpdateView::Result(text) => (
                HudModel { last_words: words(text).len() as int, ..self },
                HudEffects::none(),
            ),
            UpdateView::CoachingHint(hint) => match hint {
                // A hint never overwrites a live recording's waveform.
                Some(hint) if !(self.pill.state is Listening) => (
                    HudModel {
                        pill: PillModel { state: PillStateView::Notice(hint), ..self.pill },
                        ..self
                    },
                    HudEffects::paint(),
                ),
                _ => (self, HudEffects::none()),
            },
            UpdateView::State(state) => (
                HudModel {
                    pill: self.entered(state, settings.show_idle_indicator, now),
                    ..self
                },
                HudEffects {
                    repaint: true,
                    place: state is Warming,
                    earcon: if settings.sounds_enabled && settings.player_started {
                        earcon_of(state)
                    } else {
                        None
                    },
                    session_active: Some(!state.terminal() && !(state is Idle)),
                    dictating: Some(state is Recording),
                    rest_later: state.terminal(),
                },
            ),
        }
    }
}

impl HudDriver {
    /// The pill starts at rest, not blank: the resting dot is the only thing
    /// that says the program is running at all.
    pub fn new(show_idle_indicator: bool) -> (hud: Self)
        ensures
            hud@.pill == (PillModel {
                state: resting(show_idle_indicator),
                level: Level { bits: LEVEL_ZERO },
                elapsed: Duration { nanos: 0 },
                slow: false,
                recording_since: None,
                processing_since: None,
            }),
            hud.silence == SilenceReason::NoSpeech,
            hud.last_words == 0,
    {
        let mut pill = PillView::new();
        pill.state = at_rest(show_idle_indicator);
        HudDriver { pill, silence: SilenceReason::NoSpeech, last_words: 0 }
    }

    fn enter(&mut self, state: DictationState, settings: HudSettings, now: i128) -> (effects:
        HudEffects)
        ensures
            (final(self)@, effects) == old(self)@.after(UpdateView::State(state), settings, now),
    {
        let terminal = state.is_terminal();
        let mut shown = PillView::project(state, self.silence, settings.show_idle_indicator);
        if let PillState::Success { .. } = shown {
            shown = PillState::Success { words: self.last_words };
        }
        if state == DictationState::Warming {
            self.pill.recording_since = Some(now);
        }
        if state == DictationState::Finalizing {
            self.pill.processing_since = Some(now);
        }
        if terminal {
            self.pill.recording_since = None;
            self.pill.processing_since = None;
            self.pill.level = Level { bits: LEVEL_ZERO };
            self.pill.slow = false;
        }
        self.pill.state = shown;
        HudEffects {
            repaint: true,
            place: state == DictationState::Warming,
            earcon: play_transition(state, settings.sounds_enabled, settings.player_started),
            session_active: Some(!terminal && state != DictationState::Idle),
            dictating: Some(state.is_recording()),
            rest_later: terminal,
        }
    }

    /// Takes an update of the coordinator.
    pub fn update(&mut self, update: CoordinatorUpdate, settings: HudSettings, now: i128) -> (
    effects: HudEffects)
        ensures
            (final(self)@, effects) == old(self)@.after(update@, settings, now),
    {
        match update {
            CoordinatorUpdate::MicLevel(level) => {
                self.pill.level = level;
                only(true)
            },
            CoordinatorUpdate::SilenceReason(reason) => {
                self.silence = reason;
                only(false)
            },
            CoordinatorUpdate::Result(text) => {
                let list = words_of(&chars_of(text.as_str()));
                assert(words(text@).len() == list@.len());
                self.last_words = list.len();
                only(false)
            },
            CoordinatorUpdate::CoachingHint(hint) => {
                match hint {
                    Some(hint) => {
                        let listening = matches!(self.pill.state, PillState::Listening { .. });
                        if listening {
                            only(false)
                        } else {
                            self.pill.state = PillState::Notice(hint);
                            only(true)
                        }
                    },
                    None => only(false),
                }
            },
            CoordinatorUpdate::State(state) => self.enter(state, settings, now),
        }
    }

    /// A setting changed. The resting dot follows at once, not after the next
    /// unrelated transition.
    pub fn setting_changed(
        &mut self,
        key: &str,
        state: DictationState,
        show_idle_indicator: bool,
    ) -> (repaint: bool)
        ensures
            (final(self)@, repaint) == old(self)@.set(key@, state, show_idle_indicator),
    {
        if same_text(key, "showIdleIndicator") {
            self.pill.state = PillView::project(state, self.silence, show_idle_indicator);
            true
        } else {
            false
        }
    }

    /// The outcome has been shown: back to rest, but only if nothing new started
    /// in the meantime.
    pub fn rest(&mut self, state: DictationState, show_idle_indicator: bool) -> (repaint: bool)
        ensures
            (final(self)@, repaint) == old(self)@.rested(state, show_idle_indicator),
    {
        if state.is_terminal() {
            self.pill.state = at_rest(show_idle_indicator);
            true
        } else {
            false
        }
    }
}

/// The hotkey grammar over the hook's events. The double-tap window is a deadline
/// on the next event rather than a timer that could outlive its gesture.
#[derive(Debug)]
pub struct HotkeyLoop {
    pub processor: HotkeyProcessor,
    pub deadline: Option<Duration>,
}

/// Where an answer of the coordinator leaves the grammar.
pub open spec fn settled(processor: HotkeyProcessor, accepted: bool) -> (Phase, bool) {
    if accepted {
        (processor.phase, processor.swallow_next_up)
    } else {
        (Phase::Idle, false)
    }
}

/// The deadline that a step of the grammar leaves.
pub open spec fn deadline_after(deadline: Option<Duration>, s: Step, at: Duration) -> Option<
    Duration,
> {
    if s.disarm_timer {
        None
    } else {
        match s.arm_timer {
            Some(window) => Some(at.plus(window)),
            None => deadline,
        }
    }
}

impl HotkeyLoop {
    pub fn new() -> (grammar: Self)
        ensures
            grammar.processor.phase is Idle,
            !grammar.processor.swallow_next_up,
            !grammar.processor.double_tap_lock_enabled,
            grammar.deadline is None,
    {
        HotkeyLoop { processor: HotkeyProcessor::new(), deadline: None }
    }

    /// How long to wait for the next event; forever if there is no deadline.
    pub fn wait(&self, now: Duration) -> (wait: Option<Duration>)
        ensures
            wait == (match self.deadline {
                Some(deadline) => Some(deadline.minus(now)),
                None => None,
            }),
    {
        match self.deadline {
            Some(deadline) => Some(deadline.saturating_sub(now)),
            None => None,
        }
    }

    /// Takes an event, and returns what the coordinator is asked for. The setting
    /// is read per event: it applies to the next gesture, never within one.
    pub fn event(&mut self, event: HotkeyEvent, at: Duration, double_tap_lock: bool) -> (intents:
        Vec<HotkeyIntent>)
        ensures
            ({
                let s = step(
                    old(self).processor.phase,
                    old(self).processor.swallow_next_up,
                    double_tap_lock,
                    event,
                    at,
                );
                &&& final(self).processor.phase == s.phase
                &&& final(self).processor.swallow_next_up == s.swallow_next_up
                &&& final(self).processor.double_tap_lock_enabled == double_tap_lock
                &&& intents@ == s.intents
                &&& final(self).deadline == deadline_after(old(self).deadline, s, at)
            }),
    {
        self.processor.double_tap_lock_enabled = double_tap_lock;
        let effects = self.processor.handle(event, at);
        if let Some(window) = effects.arm_timer {
            self.deadline = Some(at.saturating_add(window));
        }
        if effects.disarm_timer {
            self.deadline = None;
        }
        effects.intents
    }

    /// The deadline passed without an event.
    pub fn timed_out(&mut self, now: Duration, double_tap_lock: bool) -> (intents: Vec<
        HotkeyIntent,
    >)
        ensures
            ({
                let s = step(
                    old(self).processor.phase,
                    old(self).processor.swallow_next_up,
                    double_tap_lock,
                    HotkeyEvent::DoubleTapTimeout,
                    now,
                );
                &&& final(self).processor.phase == s.phase
                &&& final(self).processor.swallow_next_up == s.swallow_next_up
                &&& final(self).processor.double_tap_lock_enabled == double_tap_lock
                &&& intents@ == s.intents
            }),
            final(self).deadline is None,
    {
        self.deadline = None;
        self.event(HotkeyEvent::DoubleTapTimeout, now, double_tap_lock)
    }

    /// The coordinator answered an intent. A refusal must reach the grammar, or a
    /// Space lock on the phantom session strands it and eats the next dictation.
    pub fn answered(&mut self, accepted: bool)
        ensures
            final(self).deadline == old(self).deadline,
            final(self).processor.double_tap_lock_enabled == old(
                self).processor.double_tap_lock_enabled,
            (final(self).processor.phase, final(self).processor.swallow_next_up) == settled(
                old(self).processor,
                accepted,
            ),
    {
        if !accepted {
            self.processor.reset();
        }
    }

    /// Tells the hook what the grammar knows.
    pub fn mirror(&self, hook: &mut HookState)
        ensures
            *final(hook) == (HookState {
                session_active: !(self.processor.phase is Idle),
                key_held: self.processor.phase is Pressed,
                ..*old(hook)
            }),
    {
        set_session_active(hook, self.processor.is_session_active());
        set_key_held(hook, self.processor.is_key_held());
    }
}

/// Rebinds the hook when the dictation key changes in the settings.
pub fn follow_hotkey_setting(hook: &mut HookState, key: &str, hotkey: HotkeyKey) -> (rebound: bool)
    ensures
        rebound == (key@ == "hotkeyKey"@),
        *final(hook) == (if rebound {
            HookState {
                hotkey_vk: hotkey.vk(),
                suppress_hotkey: hotkey.suppressed(),
                ..*old(hook)
            }
        } else {
            *old(hook)
        }),
{
    if same_text(key, "hotkeyKey") {
        set_hotkey(hook, hotkey);
        true
    } else {
        false
    }
}

/// The windows of the program.
#[derive(Debug, Clone, Copy, PartialEq, Eq, Structural)]
pub enum Screen {
    History,
    Dictionary,
    Settings,
    Onboarding,
    About,
}

/// What a command of the tray does.
#[derive(Debug, Clone, Copy, PartialEq, Eq, Structural)]
pub enum TrayTask {
    /// Ask the coordinator for the end of the recording.
    Finalize,
    /// Ask it to begin and, if it does, to lock: the menu starts hands-free
    /// rather than pretending to be a hold.
    BeginLocked,
    Open(Screen),
    Quit,
}

pub open spec fn task_of(command: TrayCommand, recording: bool) -> TrayTask {
    match command {
        TrayCommand::ToggleDictation => if recording {
            TrayTask::Finalize
        } else {
            TrayTask::BeginLocked
        },
        TrayCommand::OpenHistory => TrayTask::Open(Screen::History),
        TrayCommand::OpenDictionary => TrayTask::Open(Screen::Dictionary),
        TrayCommand::OpenSettings => TrayTask::Open(Screen::Settings),
        TrayCommand::OpenOnboarding => TrayTask::Open(Screen::Onboarding),
        TrayCommand::About => TrayTask::Open(Screen::About),
        TrayCommand::Quit => TrayTask::Quit,
    }
}

pub fn handle_tray(command: TrayCommand, state: DictationState) -> (task: TrayTask)
    ensures
        task == task_of(command, state is Recording),
{
    match command {
        TrayCommand::ToggleDictation => {
            if state.is_recording() {
                TrayTask::Finalize
            } else {
                TrayTask::BeginLocked
            }
        },
        TrayCommand::OpenHistory => TrayTask::Open(Screen::History),
        TrayCommand::OpenDictionary => TrayTask::Open(Screen::Dictionary),
        TrayCommand::OpenSettings => TrayTask::Open(Screen::Settings),
        TrayCommand::OpenOnboarding => TrayTask::Open(Screen::Onboarding),
        TrayCommand::About => TrayTask::Open(Screen::About),
        TrayCommand::Quit => TrayTask::Quit,
    }
}

/// A hint never replaces the waveform of a live recording.
pub proof fn hints_never_cover_a_recording(
    hud: HudModel,
    hint: Option<Seq<char>>,
    settings: HudSettings,
    now: i128,
)
    requires
        hud.pill.state is Listening,
    ensures
        hud.after(UpdateView::CoachingHint(hint), settings, now) == (hud, HudEffects::none()),
{
}

/// A session that ended leaves no clock running, no level and no slow state, and
/// the hook and the tray are told that it is over.
pub proof fn an_ended_session_leaves_nothing_running(
    hud: HudModel,
    state: DictationState,
    settings: HudSettings,
    now: i128,
)
    requires
        state.terminal(),
    ensures
        ({
            let (after, effects) = hud.after(UpdateView::State(state), settings, now);
            &&& after.pill.recording_since is None
            &&& after.pill.processing_since is None
            &&& after.pill.level == (Level { bits: LEVEL_ZERO })
            &&& !after.pill.slow
            &&& effects.session_active == Some(false)
            &&& effects.dictating == Some(false)
            &&& effects.rest_later
        }),
{
}

/// Every key press is acknowledged at once: the pill listens, the clock starts and
/// the hook knows of the session before the microphone is open.
pub proof fn a_press_is_acknowledged_at_once(hud: HudModel, settings: HudSettings, now: i128)
    ensures
        ({
            let (after, effects) = hud.after(
                UpdateView::State(DictationState::Warming),
                settings,
                now,
            );
            &&& after.pill.state == (PillStateView::Listening { locked: false })
            &&& after.pill.recording_since == Some(now)
            &&& effects.repaint && effects.place
            &&& effects.session_active == Some(true)
        }),
{
}

/// Muted means muted, whatever happens.
pub proof fn muted_means_silent(
    hud: HudModel,
    update: UpdateView,
    settings: HudSettings,
    now: i128,
)
    requires
        !settings.sounds_enabled,
    ensures
        hud.after(update, settings, now).1.earcon is None,
{
}

/// The pill counts the words that landed, shows the silence as it was judged, and
/// follows the level; none of these changes what state it shows.
pub proof fn updates_are_remembered(
    hud: HudModel,
    level: Level,
    silence: SilenceReason,
    text: Seq<char>,
    settings: HudSettings,
    now: i128,
)
    ensures
        ({
            let (heard, painted) = hud.after(UpdateView::MicLevel(level), settings, now);
            let (judged, _) = hud.after(UpdateView::SilenceReason(silence), settings, now);
            let (landed, _) = hud.after(UpdateView::Result(text), settings, now);
            &&& heard.pill.level == level && heard.pill.state == hud.pill.state && painted.repaint
            &&& judged.silence == silence && judged.pill == hud.pill
            &&& landed.last_words == words(text).len() && landed.pill == hud.pill
        }),
{
}

/// A hint is shown wherever there is no recording to cover.
pub proof fn a_hint_is_shown(hud: HudModel, hint: Seq<char>, settings: HudSettings, now: i128)
    requires
        !(hud.pill.state is Listening),
    ensures
        ({
            let (after, effects) = hud.after(
                UpdateView::CoachingHint(Some(hint)),
                settings,
                now,
            );
            after.pill.state == PillStateView::Notice(hint) && effects.repaint
        }),
        hud.after(UpdateView::CoachingHint(None), settings, now) == (hud, HudEffects::none()),
{
}

/// On every change of state the hook is told whether a session is live and the tray
/// whether it records; the clocks start with the warming up and with the
/// finalizing, and run until the session ends.
pub proof fn a_change_of_state_is_told(
    hud: HudModel,
    state: DictationState,
    settings: HudSettings,
    now: i128,
)
    ensures
        ({
            let (after, effects) = hud.after(UpdateView::State(state), settings, now);
            let live = state is Warming || state is Recording || state is Finalizing || state
                is Transcribing || state is Inserting;
            &&& effects.repaint
            &&& effects.session_active == Some(live)
            &&& effects.dictating == Some(state is Recording)
            &&& effects.place == (state is Warming)
            &&& effects.rest_later == (!live && !(state is Idle))
            &&& state is Finalizing ==> after.pill.processing_since == Some(now)
                && after.pill.recording_since == hud.pill.recording_since
            &&& state is Recording || state is Transcribing || state is Inserting
                ==> after.pill.processing_since == hud.pill.processing_since
                && after.pill.recording_since == hud.pill.recording_since
            &&& state == DictationState::Done(crate::state_machine::DictationOutcome::Inserted)
                && 0 <= hud.last_words <= usize::MAX ==> after.pill.state == (
            PillStateView::Success { words: hud.last_words as usize })
            &&& !(state is Done) ==> after.pill.state == projected(
                state,
                hud.silence,
                settings.show_idle_indicator,
            )
            &&& settings.sounds_enabled && settings.player_started ==> effects.earcon == earcon_of(
                state,
            )
            &&& after.silence == hud.silence && after.last_words == hud.last_words
        }),
{
}

/// Once an outcome has been shown the pill goes to rest, unless a new session has
/// begun; and the resting dot follows its setting at once, but no other setting.
pub proof fn the_pill_goes_to_rest(
    hud: HudModel,
    state: DictationState,
    show_idle_indicator: bool,
    key: Seq<char>,
)
    ensures
        ({
            let (after, repaint) = hud.rested(state, show_idle_indicator);
            let ended = state is Done || state is Cancelled || state is Failed;
            &&& repaint == ended
            &&& !ended ==> after == hud
            &&& ended && show_idle_indicator ==> after.pill.state is IdleDot
            &&& ended && !show_idle_indicator ==> after.pill.state is Hidden
        }),
        ({
            let (after, repaint) = hud.set(key, state, show_idle_indicator);
            &&& repaint <==> key == "showIdleIndicator"@
            &&& !repaint ==> after == hud
            &&& repaint && state is Idle ==> after.pill.state == (if show_idle_indicator {
                PillStateView::IdleDot
            } else {
                PillStateView::Hidden
            })
        }),
{
}

/// The second tap of a double tap has half a second: the first tap sets a deadline
/// that long, the second tap clears it, and other keys in a hold leave it.
pub proof fn the_second_tap_has_half_a_second(
    down_at: Duration,
    session_start_at: Duration,
    deadline: Option<Duration>,
    at: Duration,
    double_tap: bool,
)
    requires
        at.nanos < down_at.nanos + 300_000_000,
        at.nanos + 500_000_000 <= u128::MAX,
    ensures
        ({
            let held = Phase::Pressed { down_at, session_start_at };
            let pending = Phase::PendingSecondTap { session_start_at };
            let tap = step(held, false, true, HotkeyEvent::HotkeyUp, at);
            let second = step(pending, false, double_tap, HotkeyEvent::HotkeyDown, at);
            &&& deadline_after(deadline, tap, at) matches Some(limit) && limit.nanos == at.nanos
                + 500_000_000
            &&& deadline_after(deadline, second, at) is None
        }),
{
}

/// The wait for the next event is what is left until the deadline; without one
/// there is no end to it.
pub proof fn the_wait_ends_at_the_deadline(
    grammar: HotkeyLoop,
    now: Duration,
    wait: Option<Duration>,
)
    requires
        call_ensures(HotkeyLoop::wait, (&grammar, now), wait),
    ensures
        wait is None <==> grammar.deadline is None,
        grammar.deadline matches Some(deadline) ==> (wait matches Some(left) && (if deadline.nanos
            >= now.nanos {
            left.nanos == deadline.nanos - now.nanos
        } else {
            left.nanos == 0
        })),
{
}

/// The tray's dictation command stops a recording and otherwise starts one without
/// hands; every other command opens what it names, or quits.
pub proof fn the_tray_does_what_it_says(
    command: TrayCommand,
    state: DictationState,
    task: TrayTask,
)
    requires
        call_ensures(handle_tray, (command, state), task),
    ensures
        task == TrayTask::Finalize <==> command is ToggleDictation && state is Recording,
        task == TrayTask::BeginLocked <==> command is ToggleDictation && !(state is Recording),
        task == TrayTask::Open(Screen::History) <==> command is OpenHistory,
        task == TrayTask::Open(Screen::Dictionary) <==> command is OpenDictionary,
        task == TrayTask::Open(Screen::Settings) <==> command is OpenSettings,
        task == TrayTask::Open(Screen::Onboarding) <==> command is OpenOnboarding,
        task == TrayTask::Open(Screen::About) <==> command is About,
        task == TrayTask::Quit <==> command is Quit,
{
}

/// A refused intent leaves the grammar idle, so that the next press begins afresh;
/// an accepted one leaves it as it is.
pub proof fn a_refusal_reaches_the_grammar(
    processor: HotkeyProcessor,
    double_tap: bool,
    now: Duration,
)
    ensures
        ({
            let (phase, swallow) = settled(processor, false);
            step(phase, swallow, double_tap, HotkeyEvent::HotkeyDown, now).intents == seq![
                HotkeyIntent::Begin,
            ]
        }),
        settled(processor, true) == (processor.phase, processor.swallow_next_up),
{
}

} // verus!
