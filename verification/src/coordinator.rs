//! The brain: turns hotkey intents and what the devices report into the life of
//! a session, and says what has to be done about it.
//!
//! Nothing here touches a device, a file or the network. Each call updates the
//! coordinator and returns the actions that the caller performs, in order.

use vstd::prelude::*;

use crate::audio::{AudioCaptureResult, CaptureError, CaptureView};
use crate::clock::{span, span_between, Duration};
use crate::gemini::{ErrorView, TranscriptionError};
use crate::history::RecordView;
use crate::hotkey::HotkeyIntent;
use crate::insertion::InsertionOutcome;
use crate::levels::{Decibels, HeardView, Level, NoiseFloorEstimator, DEFAULT_CAPACITY};
use crate::levels::{LEVEL_FULL, LEVEL_ZERO};
use crate::meta::{
    copied_spans,
    status_labels_are_distinct,
    MetaView,
    SessionMeta,
    SessionStatus,
};
use crate::state_machine::{
    next_state,
    transition,
    DictationEvent,
    DictationFailure,
    DictationState,
    SilenceReason,
};
use crate::text::opt_text;
use crate::transcription::{ContextView, DictationContext, ResultView, TranscriptionResult};

verus! {

/// Below this metered peak (0.06) the user simply didn't speak.
pub const SILENCE_PEAK_THRESHOLD: u32 = 0x3D75_C28F;

/// Clips shorter than this many nanoseconds can't contain a word and are never
/// sent.
pub const MINIMUM_SENDABLE_DURATION: u128 = 400_000_000;

/// Zero frames on a hold shorter than this many nanoseconds is an accidental
/// blip, not an engine failure.
pub const BLIP_HOLD_THRESHOLD: u128 = 800_000_000;

/// Above this level (0.08) at key-up, the user was still mid-word.
pub const TRAILING_SPEECH_THRESHOLD: u32 = 0x3DA3_D70A;

/// Quiet for this many nanoseconds means they finished the word.
pub const TRAILING_QUIET_TO_STOP: u128 = 250_000_000;

/// Hard cap in nanoseconds, so a noisy room can never hold a session open.
pub const TRAILING_CAPTURE_CAP: u128 = 1_500_000_000;

/// The separation (12 dB) between speech and room that a session must have shown
/// before its energy readings are trusted enough to stop early.
pub const TRAILING_TRUST_SNR: i64 = 0x4028_0000_0000_0000;

/// A mis-estimated floor must never make ordinary speech (above 0.30) read as
/// quiet.
pub const TRAILING_RELATIVE_CAP: u32 = 0x3E99_999A;

/// Nothing rose this far (8 dB) above the room means nobody spoke.
pub const EMPTY_TRANSCRIPT_SNR_THRESHOLD: i64 = 0x4020_0000_0000_0000;

/// A discard needs both a quiet absolute peak and no separation (6 dB) from the
/// room.
pub const DISCARD_SNR_THRESHOLD: i64 = 0x4018_0000_0000_0000;

/// Soft warning after nine minutes, in nanoseconds.
pub const RECORDING_WARN: u128 = 540_000_000_000;

/// Hard stop after ten minutes, in nanoseconds.
pub const RECORDING_CAP: u128 = 600_000_000_000;

/// Cancelled recordings of at least this many nanoseconds stay recoverable in
/// History.
pub const CANCEL_KEEP_THRESHOLD: u128 = 10_000_000_000;

/// A dropped transcript of a clip shorter than this many nanoseconds is a blip.
pub const EMPTY_TRANSCRIPT_BLIP: u128 = 600_000_000;

/// How often, in nanoseconds, the trailing-capture loop reads the level again.
pub const TRAILING_POLL: u128 = 60_000_000;

pub const COACH_TIP: &'static str = "Hold to talk · tap Space while holding for hands-free";

pub const PASSWORD_HINT: &'static str = "Can't dictate here — a password field has focus";

pub const ONE_MINUTE_LEFT: &'static str = "One minute left — 10-minute limit";

/// Everything a surface needs to render, pushed rather than polled.
#[derive(Debug, PartialEq, Eq)]
pub enum CoordinatorUpdate {
    State(DictationState),
    MicLevel(Level),
    /// A neutral, informational line: a coaching tip, a device change, a
    /// refusal. `None` clears it.
    CoachingHint(Option<String>),
    /// The text that just landed.
    Result(String),
    SilenceReason(SilenceReason),
}

pub enum UpdateView {
    State(DictationState),
    MicLevel(Level),
    CoachingHint(Option<Seq<char>>),
    Result(Seq<char>),
    SilenceReason(SilenceReason),
}

impl View for CoordinatorUpdate {
    type V = UpdateView;

    open spec fn view(&self) -> UpdateView {
        match self {
            CoordinatorUpdate::State(state) => UpdateView::State(*state),
            CoordinatorUpdate::MicLevel(level) => UpdateView::MicLevel(*level),
            CoordinatorUpdate::CoachingHint(hint) => UpdateView::CoachingHint(opt_text(*hint)),
            CoordinatorUpdate::Result(text) => UpdateView::Result(text@),
            CoordinatorUpdate::SilenceReason(reason) => UpdateView::SilenceReason(*reason),
        }
    }
}

/// The live session.
#[derive(Debug)]
pub struct Session {
    pub id: u128,
    /// Name of the session's folder.
    pub folder: String,
    /// Nanoseconds since the Unix epoch.
    pub started_at: i128,
    pub context: DictationContext,
    pub meta: SessionMeta,
    /// Peak mic level from capture: silence or dropped-transcript evidence.
    pub peak_level: Level,
}

#[verifier::ext_equal]
pub struct SessionView {
    pub id: u128,
    pub folder: Seq<char>,
    pub started_at: int,
    pub context: ContextView,
    pub meta: MetaView,
    pub peak_level: Level,
}

impl View for Session {
    type V = SessionView;

    open spec fn view(&self) -> SessionView {
        SessionView {
            id: self.id,
            folder: self.folder@,
            started_at: self.started_at as int,
            context: self.context@,
            meta: self.meta@,
            peak_level: self.peak_level,
        }
    }
}

/// What the caller has to do.
#[derive(Debug)]
pub enum Action {
    /// Tell the surfaces.
    Publish(CoordinatorUpdate),
    /// Write the session's record, and nothing else.
    Write { meta: SessionMeta, folder: String },
    /// Write the session's record and mirror it into the history index.
    Save { meta: SessionMeta, folder: String },
    /// Remove the session's folder and its history row: what History doesn't
    /// show is not stored.
    Discard { id: u128, folder: String },
    /// Open the connection while the user is still drawing breath.
    WarmConnection,
    /// Start the microphone, off this thread.
    StartCapture { id: u128, folder: String },
    /// The session went away while the device was opening: stop the microphone
    /// and forget what it heard.
    AbandonCapture,
    StartCapTimers,
    StopCapTimers,
    /// Stop the network work of the session.
    AbortUpload,
    /// Stop the microphone, after listening to the end of the word if the user
    /// is still talking, and report to `complete_finalize`.
    FinishCapture { still_talking: bool },
    /// Stop the microphone and report to `complete_cancel`.
    CancelCapture,
    /// Transcribe the session's audio.
    Upload { id: u128, folder: String, duration: Duration, context: DictationContext },
    /// Insert the text and report to `complete_insertion`.
    Insert { text: String, context: DictationContext },
}

pub enum ActionView {
    Publish(UpdateView),
    Write { meta: MetaView, folder: Seq<char> },
    Save { meta: MetaView, folder: Seq<char> },
    Discard { id: u128, folder: Seq<char> },
    WarmConnection,
    StartCapture { id: u128, folder: Seq<char> },
    AbandonCapture,
    StartCapTimers,
    StopCapTimers,
    AbortUpload,
    FinishCapture { still_talking: bool },
    CancelCapture,
    Upload { id: u128, folder: Seq<char>, duration: Duration, context: ContextView },
    Insert { text: Seq<char>, context: ContextView },
}

impl View for Action {
    type V = ActionView;

    open spec fn view(&self) -> ActionView {
        match self {
            Action::Publish(update) => ActionView::Publish(update@),
            Action::Write { meta, folder } => ActionView::Write { meta: meta@, folder: folder@ },
            Action::Save { meta, folder } => ActionView::Save { meta: meta@, folder: folder@ },
            Action::Discard { id, folder } => ActionView::Discard { id: *id, folder: folder@ },
            Action::WarmConnection => ActionView::WarmConnection,
            Action::StartCapture { id, folder } => ActionView::StartCapture {
                id: *id,
                folder: folder@,
            },
            Action::AbandonCapture => ActionView::AbandonCapture,
            Action::StartCapTimers => ActionView::StartCapTimers,
            Action::StopCapTimers => ActionView::StopCapTimers,
            Action::AbortUpload => ActionView::AbortUpload,
            Action::FinishCapture { still_talking } => ActionView::FinishCapture {
                still_talking: *still_talking,
            },
            Action::CancelCapture => ActionView::CancelCapture,
            Action::Upload { id, folder, duration, context } => ActionView::Upload {
                id: *id,
                folder: folder@,
                duration: *duration,
                context: context@,
            },
            Action::Insert { text, context } => ActionView::Insert {
                text: text@,
                context: context@,
            },
        }
    }
}

/// The actions asked for, in order.
pub open spec fn asked(actions: Seq<Action>) -> Seq<ActionView> {
    actions.map_values(|a: Action| a@)
}

fn ask(actions: &mut Vec<Action>, action: Action)
    ensures
        asked(final(actions)@) == asked(old(actions)@).push(action@),
{
    actions.push(action);
    assert(asked(actions@) =~= asked(old(actions)@).push(action@));
}

/// A measurement of the room, made when the microphone has heard enough of it:
/// how far speech rose above it, and the level that sits just above it.
#[derive(Debug, Clone, Copy, PartialEq, Eq, Structural)]
pub struct RoomReading {
    pub separation: Decibels,
    pub above_room: Level,
}

/// The coordinator.
#[derive(Debug)]
pub struct DictationCoordinator {
    pub state: DictationState,
    pub session: Option<Session>,
    /// Most recent metered level: decides whether the user was mid-word when
    /// they released the key.
    pub latest_level: Level,
    pub mic_level: Level,
    /// How loud the room is. Always measured, never in charge.
    pub noise_floor: NoiseFloorEstimator,
    /// Read once at key-down: a toggle flipped while the pill is up must not
    /// change the rules the live recording is judged by.
    pub noise_handling_active: bool,
    /// A lock that arrived while the engine was still coming up.
    pub pending_lock_in: bool,
    pub last_silence_reason: SilenceReason,
    pub last_result: Option<String>,
}

#[verifier::ext_equal]
pub struct CoordinatorView {
    pub state: DictationState,
    pub session: Option<SessionView>,
    pub latest_level: Level,
    pub mic_level: Level,
    pub noise_floor: HeardView,
    pub noise_handling_active: bool,
    pub pending_lock_in: bool,
    pub last_silence_reason: SilenceReason,
    pub last_result: Option<Seq<char>>,
}

impl View for DictationCoordinator {
    type V = CoordinatorView;

    open spec fn view(&self) -> CoordinatorView {
        CoordinatorView {
            state: self.state,
            session: match self.session {
                Some(session) => Some(session@),
                None => None,
            },
            latest_level: self.latest_level,
            mic_level: self.mic_level,
            noise_floor: self.noise_floor@,
            noise_handling_active: self.noise_handling_active,
            pending_lock_in: self.pending_lock_in,
            last_silence_reason: self.last_silence_reason,
            last_result: opt_text(self.last_result),
        }
    }
}

/// What a call comes to: how it leaves the coordinator, and what it asks for.
#[verifier::ext_equal]
pub struct Outcome {
    pub to: CoordinatorView,
    pub actions: Seq<ActionView>,
}

impl Outcome {
    /// Nothing happens.
    pub open spec fn of(c: CoordinatorView) -> Outcome {
        Outcome { to: c, actions: Seq::empty() }
    }

    pub open spec fn act(self, action: ActionView) -> Outcome {
        Outcome { actions: self.actions.push(action), ..self }
    }

    pub open spec fn publish(self, update: UpdateView) -> Outcome {
        self.act(ActionView::Publish(update))
    }

    /// The machine takes the event, or ignores it.
    pub open spec fn apply(self, event: DictationEvent) -> Outcome {
        match next_state(self.to.state, event) {
            Some(next) => Outcome {
                to: CoordinatorView { state: next, ..self.to },
                ..self
            }.publish(UpdateView::State(next)),
            None => self,
        }
    }

    pub open spec fn silence(self, reason: SilenceReason) -> Outcome {
        Outcome {
            to: CoordinatorView { last_silence_reason: reason, ..self.to },
            ..self
        }.publish(UpdateView::SilenceReason(reason))
    }

    /// The meter drops to zero.
    pub open spec fn hush(self) -> Outcome {
        Outcome {
            to: CoordinatorView { mic_level: Level { bits: LEVEL_ZERO }, ..self.to },
            ..self
        }.publish(UpdateView::MicLevel(Level { bits: LEVEL_ZERO }))
    }

    /// The session's record becomes `meta` and is saved.
    pub open spec fn record(self, meta: MetaView) -> Outcome {
        match self.to.session {
            Some(session) => Outcome {
                to: CoordinatorView {
                    session: Some(SessionView { meta, ..session }),
                    ..self.to
                },
                ..self
            }.act(ActionView::Save { meta, folder: session.folder }),
            None => self,
        }
    }

    /// The session is over, and its record stays.
    pub open spec fn close(self) -> Outcome {
        Outcome { to: CoordinatorView { session: None, ..self.to }, ..self }
    }

    /// The session is over and leaves no trace.
    pub open spec fn discard(self) -> Outcome {
        match self.to.session {
            Some(session) => self.close().act(
                ActionView::Discard { id: session.id, folder: session.folder },
            ),
            None => self,
        }
    }
}

impl CoordinatorView {
    pub open spec fn idle() -> CoordinatorView {
        CoordinatorView {
            state: DictationState::Idle,
            session: None,
            latest_level: Level { bits: LEVEL_ZERO },
            mic_level: Level { bits: LEVEL_ZERO },
            noise_floor: HeardView::fresh(DEFAULT_CAPACITY as nat),
            noise_handling_active: false,
            pending_lock_in: false,
            last_silence_reason: SilenceReason::NoSpeech,
            last_result: None,
        }
    }

    pub open spec fn well_formed(self) -> bool {
        self.noise_floor.well_formed()
    }

    /// A new session may begin: none is live.
    pub open spec fn may_begin(self) -> bool {
        self.state == DictationState::Idle || self.state.terminal()
    }

    /// The live session is the one with this id.
    pub open spec fn owns(self, id: u128) -> bool {
        self.session matches Some(session) && session.id == id
    }

    /// The level below which the user has stopped talking. Absolute by default.
    /// With noise handling on it rises to sit just above a loud room, but only
    /// upward, only so far, and only when the session has proved that it can
    /// tell speech from the room at all.
    pub open spec fn trailing_threshold(self, room: Option<RoomReading>) -> Level {
        match room {
            Some(reading) => if self.noise_handling_active && reading.separation.key
                >= TRAILING_TRUST_SNR {
                if reading.above_room.bits < TRAILING_SPEECH_THRESHOLD {
                    Level { bits: TRAILING_SPEECH_THRESHOLD }
                } else if reading.above_room.bits > TRAILING_RELATIVE_CAP {
                    Level { bits: TRAILING_RELATIVE_CAP }
                } else {
                    reading.above_room
                }
            } else {
                Level { bits: TRAILING_SPEECH_THRESHOLD }
            },
            None => Level { bits: TRAILING_SPEECH_THRESHOLD },
        }
    }

    pub open spec fn finalized(self, room: Option<RoomReading>) -> Outcome {
        if self.session is None || next_state(self.state, DictationEvent::Finalize) is None {
            Outcome::of(self)
        } else {
            Outcome::of(self).apply(DictationEvent::Finalize).act(
                ActionView::StopCapTimers,
            ).hush().act(
                ActionView::FinishCapture {
                    still_talking: self.latest_level.bits >= self.trailing_threshold(room).bits,
                },
            )
        }
    }

    pub open spec fn cancelled(self, hint: Option<Seq<char>>) -> Outcome {
        if next_state(self.state, DictationEvent::Cancel) is None {
            Outcome::of(self).publish(UpdateView::CoachingHint(hint))
        } else {
            Outcome::of(self).apply(DictationEvent::Cancel).act(
                ActionView::AbortUpload,
            ).hush().act(ActionView::StopCapTimers).publish(UpdateView::CoachingHint(hint)).act(
                ActionView::CancelCapture,
            )
        }
    }

    /// A session in flight: the transcript is sacred.
    pub open spec fn in_flight(self) -> bool {
        self.state is Finalizing || self.state is Transcribing || self.state is Inserting
    }

    pub open spec fn tapped(self, room: Option<RoomReading>) -> Outcome {
        if self.state == (DictationState::Recording { locked: true }) {
            self.finalized(room)
        } else if self.state is Warming || self.state is Recording {
            self.cancelled(Some(COACH_TIP@))
        } else if self.in_flight() {
            Outcome::of(self)
        } else {
            Outcome::of(self).publish(UpdateView::CoachingHint(Some(COACH_TIP@)))
        }
    }

    pub open spec fn chorded(self, room: Option<RoomReading>) -> Outcome {
        if self.state == (DictationState::Recording { locked: true }) {
            self.finalized(room)
        } else if self.state is Warming || self.state is Recording {
            self.cancelled(None)
        } else {
            Outcome::of(self)
        }
    }

    pub open spec fn locked_in(self) -> Outcome {
        if self.state is Warming {
            Outcome::of(CoordinatorView { pending_lock_in: true, ..self })
        } else {
            Outcome::of(self).apply(DictationEvent::LockIn)
        }
    }

    /// What an intent other than `Begin` does.
    pub open spec fn handled(self, intent: HotkeyIntent, room: Option<RoomReading>) -> Outcome {
        match intent {
            HotkeyIntent::Begin => Outcome::of(self),
            HotkeyIntent::LockIn => self.locked_in(),
            HotkeyIntent::Finalize => self.finalized(room),
            HotkeyIntent::Cancel => self.cancelled(None),
            HotkeyIntent::ShortTapHint => self.tapped(room),
            HotkeyIntent::AbortAccidental => self.chorded(room),
        }
    }

    /// What becomes of an intent.
    pub open spec fn received(self, intent: HotkeyIntent) -> Reception {
        match intent {
            HotkeyIntent::Begin => if self.may_begin() {
                Reception::MayBegin
            } else {
                Reception::Refused
            },
            HotkeyIntent::LockIn => if self.state is Warming || next_state(
                self.state,
                DictationEvent::LockIn,
            ) is Some {
                Reception::Accepted
            } else {
                Reception::Refused
            },
            _ => Reception::Accepted,
        }
    }

    /// The device did not open: there is nothing to keep.
    pub open spec fn capture_failed(self, failure: DictationFailure) -> Outcome {
        Outcome::of(self).apply(DictationEvent::EngineFailed(failure)).discard()
    }

    /// A level was metered.
    pub open spec fn metered(self, level: Level, db: Decibels, update_meter: bool) -> Outcome {
        let heard = CoordinatorView {
            mic_level: if update_meter {
                level
            } else {
                self.mic_level
            },
            latest_level: level,
            noise_floor: self.noise_floor.heard(db),
            ..self
        };
        if update_meter {
            Outcome::of(heard).publish(UpdateView::MicLevel(level))
        } else {
            Outcome::of(heard)
        }
    }

    /// The recording is as long as it may be.
    pub open spec fn capped(self, room: Option<RoomReading>) -> Outcome {
        if self.state is Recording {
            self.finalized(room)
        } else {
            Outcome::of(self)
        }
    }

    pub open spec fn begun(
        self,
        id: u128,
        folder: Seq<char>,
        started_at: int,
        context: ContextView,
        noise_handling: bool,
    ) -> Outcome {
        let meta = MetaView {
            target_app_exe: context.target_app_exe,
            target_app_name: context.target_app_name,
            ..MetaView::fresh(id, started_at, SessionStatus::Recording)
        };
        let session = SessionView {
            id,
            folder,
            started_at,
            context,
            meta,
            peak_level: Level { bits: LEVEL_FULL },
        };
        Outcome {
            to: CoordinatorView {
                state: DictationState::Warming,
                session: Some(session),
                noise_floor: HeardView::fresh(DEFAULT_CAPACITY as nat),
                noise_handling_active: noise_handling,
                pending_lock_in: false,
                ..self
            },
            actions: seq![
                ActionView::Write { meta, folder },
                ActionView::WarmConnection,
                ActionView::Publish(UpdateView::State(DictationState::Warming)),
                ActionView::Publish(UpdateView::CoachingHint(None)),
                ActionView::Save { meta, folder },
                ActionView::StartCapture { id, folder },
            ],
        }
    }

    /// The device is open: the session takes the microphone, unless it is gone.
    pub open spec fn capture_started(self, id: u128) -> Outcome {
        if !self.owns(id) {
            Outcome::of(self).act(ActionView::AbandonCapture)
        } else {
            let running = Outcome::of(self).apply(DictationEvent::EngineStarted);
            if running.to.pending_lock_in {
                Outcome {
                    to: CoordinatorView { pending_lock_in: false, ..running.to },
                    ..running
                }.apply(DictationEvent::LockIn).act(ActionView::StartCapTimers)
            } else {
                running.act(ActionView::StartCapTimers)
            }
        }
    }

    pub open spec fn no_speech(self) -> Outcome {
        Outcome::of(self).silence(SilenceReason::NoSpeech).apply(
            DictationEvent::SilenceOnly,
        ).discard()
    }

    /// A quiet peak that nothing shows to have risen above the room: a muted
    /// mic. Unmeasured loudness and an unmeasured room each prevent a discard.
    pub open spec fn digital_silence(
        self,
        result: CaptureView,
        separation: Option<Decibels>,
    ) -> bool {
        &&& result.peak_is_trustworthy
        &&& result.peak_level.bits < SILENCE_PEAK_THRESHOLD
        &&& separation matches Some(snr)
        &&& snr.key < DISCARD_SNR_THRESHOLD
    }

    /// The record of a finished recording.
    pub open spec fn recorded_meta(
        session: SessionView,
        result: CaptureView,
        heard: HeardView,
    ) -> MetaView {
        MetaView {
            status: SessionStatus::Recorded,
            audio_duration: Some(result.duration),
            gap_markers: result.gap_markers,
            noise_floor: heard.floor(),
            speech_peak: if heard.floor() is Some {
                Some(heard.peak)
            } else {
                None
            },
            ..session.meta
        }
    }

    pub open spec fn finalize_completed(
        self,
        result: CaptureView,
        now: int,
        separation: Option<Decibels>,
    ) -> Outcome {
        match self.session {
            None => Outcome::of(self),
            Some(session) => if result.frames_written == 0 {
                if span(session.started_at, now) < BLIP_HOLD_THRESHOLD {
                    self.no_speech()
                } else {
                    Outcome::of(self).apply(DictationEvent::NoAudioCaptured).discard()
                }
            } else {
                let meta = Self::recorded_meta(session, result, self.noise_floor);
                let heard = CoordinatorView {
                    session: Some(SessionView { peak_level: result.peak_level, ..session }),
                    ..self
                };
                let saved = Outcome::of(heard).record(meta);
                if result.duration.nanos < MINIMUM_SENDABLE_DURATION || self.digital_silence(
                    result,
                    separation,
                ) {
                    saved.silence(SilenceReason::NoSpeech).apply(
                        DictationEvent::SilenceOnly,
                    ).discard()
                } else {
                    saved.apply(DictationEvent::AudioFinalized).act(
                        ActionView::Upload {
                            id: session.id,
                            folder: session.folder,
                            duration: result.duration,
                            context: session.context,
                        },
                    )
                }
            },
        }
    }

    pub open spec fn transcribed(self, id: u128, outcome: ResultView) -> Outcome {
        match self.session {
            Some(session) => if session.id != id {
                Outcome::of(self)
            } else {
                Outcome::of(self).record(
                    MetaView {
                        raw_transcript: Some(outcome.raw_transcript),
                        cleaned_transcript: Some(outcome.cleaned_transcript),
                        model_id: Some(outcome.model_id),
                        status: SessionStatus::Transcribing,
                        ..session.meta
                    },
                ).apply(DictationEvent::TranscriptReady).act(
                    ActionView::Insert {
                        text: outcome.cleaned_transcript,
                        context: session.context,
                    },
                )
            },
            None => Outcome::of(self),
        }
    }

    pub open spec fn inserted(
        self,
        insertion: InsertionOutcome,
        text: Seq<char>,
        pipeline_time: Duration,
    ) -> Outcome {
        let saved = match self.session {
            Some(session) => Outcome::of(self).record(
                MetaView {
                    status: status_of(insertion),
                    pipeline_time: Some(pipeline_time),
                    ..session.meta
                },
            ),
            None => Outcome::of(self),
        };
        let moved = saved.apply(event_of(insertion));
        Outcome {
            to: CoordinatorView { last_result: Some(text), ..moved.to },
            ..moved
        }.publish(UpdateView::Result(text)).close()
    }

    /// An empty transcript that the audio shows to be silence: a quiet peak, or
    /// a true blip.
    pub open spec fn quiet_audio(session: SessionView) -> bool {
        ||| session.peak_level.bits < SILENCE_PEAK_THRESHOLD
        ||| session.meta.audio_duration is None
        ||| (session.meta.audio_duration->0).nanos < EMPTY_TRANSCRIPT_BLIP
    }

    /// A loud room with nothing rising above it.
    pub open spec fn too_noisy(self, separation: Option<Decibels>) -> bool {
        &&& self.noise_handling_active
        &&& separation matches Some(snr)
        &&& snr.key < EMPTY_TRANSCRIPT_SNR_THRESHOLD
    }

    pub open spec fn transcription_failed(
        self,
        id: u128,
        error: ErrorView,
        separation: Option<Decibels>,
    ) -> Outcome {
        match self.session {
            None => Outcome::of(self),
            Some(session) => if session.id != id {
                Outcome::of(self)
            } else if error is EmptyTranscript && Self::quiet_audio(session) {
                self.no_speech()
            } else if error is EmptyTranscript && self.too_noisy(separation) {
                Outcome::of(self).record(
                    MetaView {
                        status: SessionStatus::Failed,
                        error_code: Some("tooNoisy"@),
                        ..session.meta
                    },
                ).silence(SilenceReason::TooNoisy).apply(DictationEvent::SilenceOnly).close()
            } else if error is Offline {
                Outcome::of(self).record(
                    MetaView {
                        status: SessionStatus::QueuedForRetry,
                        error_code: Some("offline"@),
                        ..session.meta
                    },
                ).apply(DictationEvent::QueuedForRetry).close()
            } else {
                Outcome::of(self).record(
                    MetaView {
                        status: SessionStatus::Failed,
                        error_code: Some(error_code(error)),
                        error_message: error_detail(error),
                        ..session.meta
                    },
                ).apply(DictationEvent::TranscriptFailed(failure_of(error))).close()
            },
        }
    }

    /// How long the cancelled recording is: what the microphone reports, else
    /// what finalizing has already recorded.
    pub open spec fn cancelled_length(self, captured: Option<Duration>) -> Duration {
        match captured {
            Some(length) => length,
            None => match self.session {
                Some(session) => match session.meta.audio_duration {
                    Some(length) => length,
                    None => Duration { nanos: 0 },
                },
                None => Duration { nanos: 0 },
            },
        }
    }

    pub open spec fn worth_keeping(self, captured: Option<Duration>) -> bool {
        ||| self.session matches Some(session) && session.meta.raw_transcript is Some
        ||| self.cancelled_length(captured).nanos >= CANCEL_KEEP_THRESHOLD
    }

    pub open spec fn cancel_completed(self, captured: Option<Duration>) -> Outcome {
        if self.worth_keeping(captured) {
            match self.session {
                Some(session) => Outcome::of(self).record(
                    MetaView {
                        status: SessionStatus::Cancelled,
                        audio_duration: match session.meta.audio_duration {
                            Some(length) => Some(length),
                            None => Some(self.cancelled_length(captured)),
                        },
                        ..session.meta
                    },
                ).close(),
                None => Outcome::of(self),
            }
        } else {
            Outcome::of(self).discard()
        }
    }

    /// Something broke mid-recording: note it and finalize with what there is.
    pub open spec fn broken(
        self,
        code: Seq<char>,
        hint: Option<Seq<char>>,
        room: Option<RoomReading>,
    ) -> Outcome {
        if !(self.state is Recording) {
            Outcome::of(self)
        } else {
            let noted = match self.session {
                Some(session) => Outcome::of(self).record(
                    MetaView { error_code: Some(code), ..session.meta },
                ),
                None => Outcome::of(self),
            };
            let told = match hint {
                Some(line) => noted.publish(UpdateView::CoachingHint(Some(line))),
                None => noted,
            };
            let ended = told.to.finalized(room);
            Outcome { to: ended.to, actions: told.actions + ended.actions }
        }
    }
}

/// "Mic didn't start" is the wrong advice on a machine without a microphone.
pub open spec fn failure_to_open(error: CaptureError) -> DictationFailure {
    if error is NoInputDevice {
        DictationFailure::NoMicrophone
    } else {
        DictationFailure::Audio
    }
}

/// How an insertion is recorded.
pub open spec fn status_of(insertion: InsertionOutcome) -> SessionStatus {
    match insertion {
        InsertionOutcome::Inserted => SessionStatus::Inserted,
        InsertionOutcome::FrontmostChanged => SessionStatus::AwaitingChip,
        InsertionOutcome::FellBackToClipboard => SessionStatus::CopiedToClipboard,
        InsertionOutcome::BlockedSecureField => SessionStatus::HeldSecure,
    }
}

/// What an insertion means to the session.
pub open spec fn event_of(insertion: InsertionOutcome) -> DictationEvent {
    match insertion {
        InsertionOutcome::Inserted => DictationEvent::Inserted,
        InsertionOutcome::FrontmostChanged => DictationEvent::FrontmostChangedAwaitingChip,
        InsertionOutcome::FellBackToClipboard => DictationEvent::InsertionFellBackToClipboard,
        InsertionOutcome::BlockedSecureField => DictationEvent::InsertionBlockedSecure,
    }
}

pub open spec fn failure_of(error: ErrorView) -> DictationFailure {
    match error {
        ErrorView::Offline => DictationFailure::Network,
        ErrorView::BadRequest(_) => DictationFailure::BadRequest,
        ErrorView::ModelUnavailable { .. } => DictationFailure::ModelAccess,
        ErrorView::Network(_) => DictationFailure::Network,
        ErrorView::Auth => DictationFailure::Auth,
        ErrorView::RateLimitedDaily => DictationFailure::QuotaExhausted,
        ErrorView::RateLimitedTransient => DictationFailure::RateLimited,
        ErrorView::Timeout => DictationFailure::Timeout,
        ErrorView::EmptyTranscript => DictationFailure::Validation,
        ErrorView::SafetyBlocked => DictationFailure::SafetyBlocked,
    }
}

pub open spec fn error_code(error: ErrorView) -> Seq<char> {
    match error {
        ErrorView::Offline => "offline"@,
        ErrorView::BadRequest(_) => "bad_request"@,
        ErrorView::ModelUnavailable { .. } => "model"@,
        ErrorView::Network(_) => "network"@,
        ErrorView::Auth => "auth"@,
        ErrorView::RateLimitedDaily => "quota"@,
        ErrorView::RateLimitedTransient => "rate_limit"@,
        ErrorView::Timeout => "timeout"@,
        ErrorView::EmptyTranscript => "empty"@,
        ErrorView::SafetyBlocked => "safety"@,
    }
}

pub open spec fn error_detail(error: ErrorView) -> Option<Seq<char>> {
    match error {
        ErrorView::BadRequest(message) => Some(message),
        ErrorView::ModelUnavailable { model, detail } => match detail {
            Some(detail) => Some(detail),
            None => Some("model "@ + model + " not accessible"@),
        },
        _ => None,
    }
}

/// Maps a transport error onto the failure shown, the code stored and the
/// detail worth keeping.
pub fn classify(error: &TranscriptionError) -> (mapped: (
    DictationFailure,
    &'static str,
    Option<String>,
))
    ensures
        mapped.0 == failure_of(error@),
        mapped.1@ == error_code(error@),
        opt_text(mapped.2) == error_detail(error@),
{
    match error {
        TranscriptionError::Offline => (DictationFailure::Network, "offline", None),
        TranscriptionError::BadRequest(message) => (
            DictationFailure::BadRequest,
            "bad_request",
            Some(message.clone()),
        ),
        TranscriptionError::ModelUnavailable { model, detail } => {
            let told = match detail {
                Some(detail) => detail.clone(),
                None => {
                    let mut s = "model ".to_owned();
                    s.append(model.as_str());
                    s.append(" not accessible");
                    s
                },
            };
            (DictationFailure::ModelAccess, "model", Some(told))
        },
        TranscriptionError::Network(_) => (DictationFailure::Network, "network", None),
        TranscriptionError::Auth => (DictationFailure::Auth, "auth", None),
        TranscriptionError::RateLimitedDaily => (DictationFailure::QuotaExhausted, "quota", None),
        TranscriptionError::RateLimitedTransient => (
            DictationFailure::RateLimited,
            "rate_limit",
            None,
        ),
        TranscriptionError::Timeout => (DictationFailure::Timeout, "timeout", None),
        TranscriptionError::EmptyTranscript => (DictationFailure::Validation, "empty", None),
        TranscriptionError::SafetyBlocked => (DictationFailure::SafetyBlocked, "safety", None),
    }
}

/// What became of a hotkey intent.
#[derive(Debug, Clone, Copy, PartialEq, Eq, Structural)]
pub enum Reception {
    Accepted,
    /// Must reach the hotkey grammar, or a Space lock on the refused session
    /// strands it locked and eats the next dictation.
    Refused,
    /// A session may begin: look for a password field, then `allow_begin`.
    MayBegin,
}

impl DictationCoordinator {
    pub fn new() -> (c: Self)
        ensures
            c@ == CoordinatorView::idle(),
            c@.well_formed(),
    {
        DictationCoordinator {
            state: DictationState::Idle,
            session: None,
            latest_level: Level { bits: LEVEL_ZERO },
            mic_level: Level { bits: LEVEL_ZERO },
            noise_floor: NoiseFloorEstimator::default(),
            noise_handling_active: false,
            pending_lock_in: false,
            last_silence_reason: SilenceReason::NoSpeech,
            last_result: None,
        }
    }

    pub fn state(&self) -> (state: DictationState)
        ensures
            state == self@.state,
    {
        self.state
    }

    pub fn last_silence_reason(&self) -> (reason: SilenceReason)
        ensures
            reason == self@.last_silence_reason,
    {
        self.last_silence_reason
    }

    pub fn last_result(&self) -> (text: Option<String>)
        ensures
            opt_text(text) == self@.last_result,
    {
        self.last_result.clone()
    }

    /// "Delete All History" also forgets the paste-last buffer.
    pub fn clear_last_result(&mut self)
        ensures
            final(self)@ == (CoordinatorView { last_result: None, ..old(self)@ }),
    {
        self.last_result = None;
    }

    /// Folder of the live session, if any: "Delete All" must not sweep it.
    pub fn active_session_folder(&self) -> (folder: Option<String>)
        ensures
            match self@.session {
                Some(session) => folder is Some && (folder->0)@ == session.folder,
                None => folder is None,
            },
    {
        match &self.session {
            Some(session) => Some(session.folder.clone()),
            None => None,
        }
    }

    fn apply(&mut self, event: DictationEvent, actions: &mut Vec<Action>) -> (accepted: bool)
        ensures
            ({
                let before = Outcome { to: old(self)@, actions: asked(old(actions)@) };
                &&& final(self)@ == before.apply(event).to
                &&& asked(final(actions)@) == before.apply(event).actions
            }),
            accepted == (next_state(old(self)@.state, event) is Some),
    {
        match transition(self.state, event) {
            Some(next) => {
                self.state = next;
                ask(actions, Action::Publish(CoordinatorUpdate::State(next)));
                true
            },
            None => false,
        }
    }

    fn silence(&mut self, reason: SilenceReason, actions: &mut Vec<Action>)
        ensures
            ({
                let before = Outcome { to: old(self)@, actions: asked(old(actions)@) };
                &&& final(self)@ == before.silence(reason).to
                &&& asked(final(actions)@) == before.silence(reason).actions
            }),
    {
        self.last_silence_reason = reason;
        ask(actions, Action::Publish(CoordinatorUpdate::SilenceReason(reason)));
    }

    fn hush(&mut self, actions: &mut Vec<Action>)
        ensures
            ({
                let before = Outcome { to: old(self)@, actions: asked(old(actions)@) };
                &&& final(self)@ == before.hush().to
                &&& asked(final(actions)@) == before.hush().actions
            }),
    {
        self.mic_level = Level { bits: LEVEL_ZERO };
        ask(
            actions,
            Action::Publish(CoordinatorUpdate::MicLevel(Level { bits: LEVEL_ZERO })),
        );
    }

    /// Replaces the session's record and has it saved.
    fn record(&mut self, meta: SessionMeta, actions: &mut Vec<Action>)
        ensures
            ({
                let before = Outcome { to: old(self)@, actions: asked(old(actions)@) };
                &&& final(self)@ == before.record(meta@).to
                &&& asked(final(actions)@) == before.record(meta@).actions
            }),
    {
        match self.session.take() {
            Some(mut session) => {
                let folder = session.folder.clone();
                session.meta = meta.clone();
                self.session = Some(session);
                ask(actions, Action::Save { meta, folder });
            },
            None => {},
        }
    }

    /// Ends the session without a trace.
    fn discard(&mut self, actions: &mut Vec<Action>)
        ensures
            ({
                let before = Outcome { to: old(self)@, actions: asked(old(actions)@) };
                &&& final(self)@ == before.discard().to
                &&& asked(final(actions)@) == before.discard().actions
            }),
    {
        match self.session.take() {
            Some(session) => {
                ask(actions, Action::Discard { id: session.id, folder: session.folder });
            },
            None => {},
        }
    }

    /// The record of the live session, to be changed and recorded.
    fn meta(&self) -> (meta: Option<SessionMeta>)
        ensures
            match self@.session {
                Some(session) => meta is Some && (meta->0)@ == session.meta,
                None => meta is None,
            },
    {
        match &self.session {
            Some(session) => Some(session.meta.clone()),
            None => None,
        }
    }

    /// The level below which the user has stopped talking.
    pub fn trailing_threshold(&self, room: Option<RoomReading>) -> (threshold: Level)
        ensures
            threshold == self@.trailing_threshold(room),
    {
        if !self.noise_handling_active {
            return Level { bits: TRAILING_SPEECH_THRESHOLD };
        }
        match room {
            Some(reading) => {
                if reading.separation.key < TRAILING_TRUST_SNR {
                    Level { bits: TRAILING_SPEECH_THRESHOLD }
                } else if reading.above_room.bits < TRAILING_SPEECH_THRESHOLD {
                    Level { bits: TRAILING_SPEECH_THRESHOLD }
                } else if reading.above_room.bits > TRAILING_RELATIVE_CAP {
                    Level { bits: TRAILING_RELATIVE_CAP }
                } else {
                    reading.above_room
                }
            },
            None => Level { bits: TRAILING_SPEECH_THRESHOLD },
        }
    }

    /// A hotkey intent. `room` is what the microphone knows of the room.
    pub fn handle(&mut self, intent: HotkeyIntent, room: Option<RoomReading>) -> (done: (
        Reception,
        Vec<Action>,
    ))
        ensures
            final(self)@ == old(self)@.handled(intent, room).to,
            asked(done.1@) == old(self)@.handled(intent, room).actions,
            done.0 == old(self)@.received(intent),
    {
        match intent {
            HotkeyIntent::Begin => {
                let reception = if matches!(self.state, DictationState::Idle)
                    || self.state.is_terminal() {
                    Reception::MayBegin
                } else {
                    Reception::Refused
                };
                let actions: Vec<Action> = Vec::new();
                assert(asked(actions@) =~= Seq::<ActionView>::empty());
                (reception, actions)
            },
            HotkeyIntent::LockIn => {
                let mut actions: Vec<Action> = Vec::new();
                assert(asked(actions@) =~= Seq::<ActionView>::empty());
                // Engine start is deferred: a lock arriving during warming is
                // latched and applied the moment the engine reports started.
                if matches!(self.state, DictationState::Warming) {
                    self.pending_lock_in = true;
                    return (Reception::Accepted, actions);
                }
                if self.apply(DictationEvent::LockIn, &mut actions) {
                    (Reception::Accepted, actions)
                } else {
                    (Reception::Refused, actions)
                }
            },
            HotkeyIntent::Finalize => (Reception::Accepted, self.finalize_session(room)),
            HotkeyIntent::Cancel => (Reception::Accepted, self.cancel_session(None)),
            HotkeyIntent::ShortTapHint => (Reception::Accepted, self.handle_short_tap(room)),
            HotkeyIntent::AbortAccidental => (
                Reception::Accepted,
                self.handle_accidental_chord(room),
            ),
        }
    }

    /// A quick tap must never destroy someone else's session: it stops a
    /// hands-free recording, cancels its own young session, and leaves one in
    /// flight alone.
    fn handle_short_tap(&mut self, room: Option<RoomReading>) -> (actions: Vec<Action>)
        ensures
            final(self)@ == old(self)@.tapped(room).to,
            asked(actions@) == old(self)@.tapped(room).actions,
    {
        match self.state {
            DictationState::Recording { locked: true } => self.finalize_session(room),
            DictationState::Warming | DictationState::Recording { .. } => self.cancel_session(
                Some(COACH_TIP.to_owned()),
            ),
            DictationState::Finalizing
            | DictationState::Transcribing
            | DictationState::Inserting => {
                let actions: Vec<Action> = Vec::new();
                assert(asked(actions@) =~= Seq::<ActionView>::empty());
                actions
            },
            _ => {
                let mut actions: Vec<Action> = Vec::new();
                assert(asked(actions@) =~= Seq::<ActionView>::empty());
                let hint = Some(COACH_TIP.to_owned());
                ask(&mut actions, Action::Publish(CoordinatorUpdate::CoachingHint(hint)));
                actions
            },
        }
    }

    /// A chord must never destroy someone else's session either. A locked
    /// session seen here was started from a window: it is finalized rather than
    /// destroyed.
    fn handle_accidental_chord(&mut self, room: Option<RoomReading>) -> (actions: Vec<Action>)
        ensures
            final(self)@ == old(self)@.chorded(room).to,
            asked(actions@) == old(self)@.chorded(room).actions,
    {
        match self.state {
            DictationState::Recording { locked: true } => self.finalize_session(room),
            DictationState::Warming | DictationState::Recording { .. } => self.cancel_session(
                None,
            ),
            _ => {
                let actions: Vec<Action> = Vec::new();
                assert(asked(actions@) =~= Seq::<ActionView>::empty());
                actions
            },
        }
    }

    /// The last check before a session begins: never record over a password
    /// field. Nothing is opened for a refused session.
    pub fn allow_begin(&self, secure_field_focused: bool) -> (allowed: (bool, Vec<Action>))
        ensures
            allowed.0 == !secure_field_focused,
            asked(allowed.1@) == (if secure_field_focused {
                seq![ActionView::Publish(UpdateView::CoachingHint(Some(PASSWORD_HINT@)))]
            } else {
                Seq::empty()
            }),
    {
        let mut actions: Vec<Action> = Vec::new();
        assert(asked(actions@) =~= Seq::<ActionView>::empty());
        if secure_field_focused {
            let hint = Some(PASSWORD_HINT.to_owned());
            ask(&mut actions, Action::Publish(CoordinatorUpdate::CoachingHint(hint)));
        }
        (!secure_field_focused, actions)
    }

    /// The session's folder could not be made.
    pub fn storage_failed(&mut self) -> (actions: Vec<Action>)
        ensures
            ({
                let outcome = Outcome::of(old(self)@).apply(
                    DictationEvent::EngineFailed(DictationFailure::Storage),
                );
                &&& final(self)@ == outcome.to
                &&& asked(actions@) == outcome.actions
            }),
    {
        let mut actions: Vec<Action> = Vec::new();
        assert(asked(actions@) =~= Seq::<ActionView>::empty());
        self.apply(DictationEvent::EngineFailed(DictationFailure::Storage), &mut actions);
        actions
    }

    /// Begins a session whose folder has been made. Its record is on disk before
    /// anything else happens. The engine starts before the key press is
    /// classified, so audio from the first moment is never lost.
    pub fn begin_session(
        &mut self,
        id: u128,
        folder: String,
        started_at: i128,
        context: DictationContext,
        noise_handling: bool,
    ) -> (actions: Vec<Action>)
        requires
            old(self)@.may_begin(),
        ensures
            final(self)@ == old(self)@.begun(
                id,
                folder@,
                started_at as int,
                context@,
                noise_handling,
            ).to,
            asked(actions@) == old(self)@.begun(
                id,
                folder@,
                started_at as int,
                context@,
                noise_handling,
            ).actions,
            final(self)@.well_formed(),
    {
        let mut actions: Vec<Action> = Vec::new();
        assert(asked(actions@) =~= Seq::<ActionView>::empty());
        let mut meta = SessionMeta::new(id, started_at, SessionStatus::Recording);
        meta.target_app_exe = context.target_app_exe.clone();
        meta.target_app_name = context.target_app_name.clone();
        ask(&mut actions, Action::Write { meta: meta.clone(), folder: folder.clone() });
        ask(&mut actions, Action::WarmConnection);
        self.state = DictationState::Idle;
        // Never inherit a stale latch.
        self.pending_lock_in = false;
        self.apply(DictationEvent::HotkeyBegin, &mut actions);
        self.noise_floor = NoiseFloorEstimator::default();
        self.noise_handling_active = noise_handling;
        self.session = Some(
            Session {
                id,
                folder: folder.clone(),
                started_at,
                context,
                meta: meta.clone(),
                peak_level: Level { bits: LEVEL_FULL },
            },
        );
        ask(&mut actions, Action::Publish(CoordinatorUpdate::CoachingHint(None)));
        let saved_folder = folder.clone();
        ask(&mut actions, Action::Save { meta, folder: saved_folder });
        ask(&mut actions, Action::StartCapture { id, folder });
        actions
    }

    /// Whether the microphone is still wanted: the session may be gone by the
    /// time the deferred start runs.
    pub fn still_warming(&self, id: u128) -> (wanted: bool)
        ensures
            wanted == (self@.owns(id) && self@.state is Warming),
    {
        match &self.session {
            Some(session) => session.id == id && matches!(self.state, DictationState::Warming),
            None => false,
        }
    }

    /// The microphone is open.
    pub fn capture_started(&mut self, id: u128) -> (actions: Vec<Action>)
        ensures
            final(self)@ == old(self)@.capture_started(id).to,
            asked(actions@) == old(self)@.capture_started(id).actions,
    {
        let mut actions: Vec<Action> = Vec::new();
        assert(asked(actions@) =~= Seq::<ActionView>::empty());
        // The session can end while the device was opening.
        let ours = match &self.session {
            Some(session) => session.id == id,
            None => false,
        };
        if !ours {
            ask(&mut actions, Action::AbandonCapture);
            return actions;
        }
        self.apply(DictationEvent::EngineStarted, &mut actions);
        if self.pending_lock_in {
            self.pending_lock_in = false;
            self.apply(DictationEvent::LockIn, &mut actions);
        }
        ask(&mut actions, Action::StartCapTimers);
        actions
    }

    /// The microphone did not open. Zero frames were captured, so there is
    /// nothing to store.
    pub fn capture_failed(&mut self, error: &CaptureError) -> (actions: Vec<Action>)
        ensures
            final(self)@ == old(self)@.capture_failed(failure_to_open(*error)).to,
            asked(actions@) == old(self)@.capture_failed(failure_to_open(*error)).actions,
    {
        let mut actions: Vec<Action> = Vec::new();
        assert(asked(actions@) =~= Seq::<ActionView>::empty());
        let failure = match error {
            CaptureError::NoInputDevice => DictationFailure::NoMicrophone,
            _ => DictationFailure::Audio,
        };
        self.apply(DictationEvent::EngineFailed(failure), &mut actions);
        self.discard(&mut actions);
        actions
    }

    /// The one place levels enter. The meter follows while the pill shows it.
    pub fn ingest_level(&mut self, level: Level, db: Decibels, update_meter: bool) -> (actions: Vec<
        Action,
    >)
        requires
            old(self)@.well_formed(),
        ensures
            final(self)@ == old(self)@.metered(level, db, update_meter).to,
            final(self)@.well_formed(),
            asked(actions@) == old(self)@.metered(level, db, update_meter).actions,
    {
        let mut actions: Vec<Action> = Vec::new();
        assert(asked(actions@) =~= Seq::<ActionView>::empty());
        if update_meter {
            self.mic_level = level;
            ask(&mut actions, Action::Publish(CoordinatorUpdate::MicLevel(level)));
        }
        self.latest_level = level;
        self.noise_floor.ingest(db);
        actions
    }

    /// A mid-recording mic switch must be visible: it changes what is being
    /// recorded.
    pub fn device_changed(&self, message: String) -> (actions: Vec<Action>)
        ensures
            asked(actions@) == (if self@.state is Recording {
                seq![ActionView::Publish(UpdateView::CoachingHint(Some(message@)))]
            } else {
                Seq::empty()
            }),
    {
        let mut actions: Vec<Action> = Vec::new();
        assert(asked(actions@) =~= Seq::<ActionView>::empty());
        if self.state.is_recording() {
            ask(&mut actions, Action::Publish(CoordinatorUpdate::CoachingHint(Some(message))));
        }
        actions
    }

    /// Nine minutes in.
    pub fn cap_warning_due(&self) -> (actions: Vec<Action>)
        ensures
            asked(actions@) == (if self@.state is Recording {
                seq![ActionView::Publish(UpdateView::CoachingHint(Some(ONE_MINUTE_LEFT@)))]
            } else {
                Seq::empty()
            }),
    {
        let mut actions: Vec<Action> = Vec::new();
        assert(asked(actions@) =~= Seq::<ActionView>::empty());
        if self.state.is_recording() {
            let hint = Some(ONE_MINUTE_LEFT.to_owned());
            ask(&mut actions, Action::Publish(CoordinatorUpdate::CoachingHint(hint)));
        }
        actions
    }

    /// Ten minutes in: a recording is finalized, anything else is left alone.
    pub fn cap_reached(&mut self, room: Option<RoomReading>) -> (actions: Vec<Action>)
        ensures
            final(self)@ == old(self)@.capped(room).to,
            asked(actions@) == old(self)@.capped(room).actions,
    {
        if self.state.is_recording() {
            return self.finalize_session(room);
        }
        let actions: Vec<Action> = Vec::new();
        assert(asked(actions@) =~= Seq::<ActionView>::empty());
        actions
    }

    fn break_off(
        &mut self,
        code: &str,
        hint: Option<String>,
        room: Option<RoomReading>,
    ) -> (actions: Vec<Action>)
        ensures
            final(self)@ == old(self)@.broken(code@, opt_text(hint), room).to,
            asked(actions@) == old(self)@.broken(code@, opt_text(hint), room).actions,
    {
        let mut actions: Vec<Action> = Vec::new();
        assert(asked(actions@) =~= Seq::<ActionView>::empty());
        if !self.state.is_recording() {
            return actions;
        }
        match self.meta() {
            Some(mut meta) => {
                meta.error_code = Some(code.to_owned());
                self.record(meta, &mut actions);
            },
            None => {},
        }
        match hint {
            Some(line) => {
                ask(&mut actions, Action::Publish(CoordinatorUpdate::CoachingHint(Some(line))));
            },
            None => {},
        }
        let mut rest = self.finalize_session(room);
        let ghost told = asked(actions@);
        let ghost ended = asked(rest@);
        let ghost before = actions@;
        let ghost after = rest@;
        actions.append(&mut rest);
        assert(asked(before + after) =~= asked(before) + asked(after));
        assert(asked(actions@) == told + ended);
        actions
    }

    /// The disk has failed for good: finalize with what there is.
    pub fn handle_write_failure(&mut self, room: Option<RoomReading>) -> (actions: Vec<Action>)
        ensures
            final(self)@ == old(self)@.broken("disk_write"@, None, room).to,
            asked(actions@) == old(self)@.broken("disk_write"@, None, room).actions,
    {
        self.break_off("disk_write", None, room)
    }

    /// The engine died mid-recording: a pill that keeps "listening" while
    /// nothing records loses every word after the seam.
    pub fn handle_engine_death(&mut self, message: String, room: Option<RoomReading>) -> (
        actions: Vec<Action>)
        ensures
            ({
                let hint = message@ + " — dictating what was captured"@;
                &&& final(self)@ == old(self)@.broken("engine_died"@, Some(hint), room).to
                &&& asked(actions@) == old(self)@.broken(
                    "engine_died"@,
                    Some(hint),
                    room,
                ).actions
            }),
    {
        let mut hint = message;
        hint.append(" — dictating what was captured");
        self.break_off("engine_died", Some(hint), room)
    }

    /// Stops the recording. The machine decides first: a second stop while a
    /// session is in flight must not stop capture or clobber its record.
    fn finalize_session(&mut self, room: Option<RoomReading>) -> (actions: Vec<Action>)
        ensures
            final(self)@ == old(self)@.finalized(room).to,
            asked(actions@) == old(self)@.finalized(room).actions,
    {
        let mut actions: Vec<Action> = Vec::new();
        assert(asked(actions@) =~= Seq::<ActionView>::empty());
        if self.session.is_none() {
            return actions;
        }
        if !self.apply(DictationEvent::Finalize, &mut actions) {
            return actions;
        }
        ask(&mut actions, Action::StopCapTimers);
        let still_talking = self.latest_level.bits >= self.trailing_threshold(room).bits;
        self.hush(&mut actions);
        ask(&mut actions, Action::FinishCapture { still_talking });
        actions
    }

    /// The microphone has stopped. `separation` is how far the session's peak
    /// rose above its floor, where both are known.
    pub fn complete_finalize(
        &mut self,
        result: AudioCaptureResult,
        now: i128,
        separation: Option<Decibels>,
    ) -> (actions: Vec<Action>)
        requires
            old(self)@.well_formed(),
        ensures
            final(self)@ == old(self)@.finalize_completed(result@, now as int, separation).to,
            asked(actions@) == old(self)@.finalize_completed(
                result@,
                now as int,
                separation,
            ).actions,
    {
        let mut actions: Vec<Action> = Vec::new();
        assert(asked(actions@) =~= Seq::<ActionView>::empty());
        let floor = self.noise_floor.floor_db();
        let (id, folder, context, started_at, mut meta) = match &self.session {
            Some(session) => (
                session.id,
                session.folder.clone(),
                session.context.clone(),
                session.started_at,
                session.meta.clone(),
            ),
            None => {
                return actions;
            },
        };
        if result.frames_written == 0 {
            if span_between(started_at, now).nanos < BLIP_HOLD_THRESHOLD {
                // Released before the first buffer landed. Not an error, and not
                // worth storing.
                self.silence(SilenceReason::NoSpeech, &mut actions);
                self.apply(DictationEvent::SilenceOnly, &mut actions);
            } else {
                // Nothing a Retry could ever transcribe: an error in the pill, no
                // dead-end row.
                self.apply(DictationEvent::NoAudioCaptured, &mut actions);
            }
            self.discard(&mut actions);
            return actions;
        }
        match self.session.take() {
            Some(mut session) => {
                session.peak_level = result.peak_level;
                self.session = Some(session);
            },
            None => {},
        }
        let duration = result.duration;
        meta.status = SessionStatus::Recorded;
        meta.audio_duration = Some(duration);
        meta.gap_markers = copied_spans(&result.gap_markers);
        // Only meaningful together: a peak with no floor to compare against says
        // nothing about the room.
        meta.noise_floor = floor;
        meta.speech_peak = match floor {
            Some(_) => Some(self.noise_floor.peak_db()),
            None => None,
        };
        self.record(meta, &mut actions);
        // Micro-clips can't contain a word: classified here, never uploaded.
        let too_short = duration.nanos < MINIMUM_SENDABLE_DURATION;
        // Both further clauses can only prevent a discard: unmeasured loudness
        // means upload rather than guess, and a quiet peak that rose clearly
        // above the room is someone speaking softly in a quiet place.
        let rose_above_room = match separation {
            Some(snr) => snr.key >= DISCARD_SNR_THRESHOLD,
            None => true,
        };
        let digital_silence = result.peak_is_trustworthy && result.peak_level.bits
            < SILENCE_PEAK_THRESHOLD && !rose_above_room;
        if too_short || digital_silence {
            self.silence(SilenceReason::NoSpeech, &mut actions);
            self.apply(DictationEvent::SilenceOnly, &mut actions);
            self.discard(&mut actions);
            return actions;
        }
        self.apply(DictationEvent::AudioFinalized, &mut actions);
        ask(&mut actions, Action::Upload { id, folder, duration, context });
        actions
    }

    /// The words are here. A stale completion is dropped.
    pub fn complete_transcription(&mut self, id: u128, outcome: TranscriptionResult) -> (
        actions: Vec<Action>)
        ensures
            final(self)@ == old(self)@.transcribed(id, outcome@).to,
            asked(actions@) == old(self)@.transcribed(id, outcome@).actions,
    {
        let mut actions: Vec<Action> = Vec::new();
        assert(asked(actions@) =~= Seq::<ActionView>::empty());
        let (context, mut meta) = match &self.session {
            Some(session) => {
                if session.id != id {
                    return actions;
                }
                (session.context.clone(), session.meta.clone())
            },
            None => {
                return actions;
            },
        };
        let text = outcome.cleaned_transcript.clone();
        meta.raw_transcript = Some(outcome.raw_transcript);
        meta.cleaned_transcript = Some(outcome.cleaned_transcript);
        meta.model_id = Some(outcome.model_id);
        meta.status = SessionStatus::Transcribing;
        self.record(meta, &mut actions);
        self.apply(DictationEvent::TranscriptReady, &mut actions);
        ask(&mut actions, Action::Insert { text, context });
        actions
    }

    /// The words have landed, or not. Either way the session is over and the
    /// words are the last result.
    pub fn complete_insertion(
        &mut self,
        insertion: InsertionOutcome,
        text: String,
        pipeline_time: Duration,
    ) -> (actions: Vec<Action>)
        ensures
            final(self)@ == old(self)@.inserted(insertion, text@, pipeline_time).to,
            asked(actions@) == old(self)@.inserted(insertion, text@, pipeline_time).actions,
    {
        let mut actions: Vec<Action> = Vec::new();
        assert(asked(actions@) =~= Seq::<ActionView>::empty());
        let (status, event) = match insertion {
            InsertionOutcome::Inserted => (SessionStatus::Inserted, DictationEvent::Inserted),
            InsertionOutcome::FrontmostChanged => (
                SessionStatus::AwaitingChip,
                DictationEvent::FrontmostChangedAwaitingChip,
            ),
            InsertionOutcome::FellBackToClipboard => (
                SessionStatus::CopiedToClipboard,
                DictationEvent::InsertionFellBackToClipboard,
            ),
            InsertionOutcome::BlockedSecureField => (
                SessionStatus::HeldSecure,
                DictationEvent::InsertionBlockedSecure,
            ),
        };
        match self.meta() {
            Some(mut meta) => {
                meta.status = status;
                meta.pipeline_time = Some(pipeline_time);
                self.record(meta, &mut actions);
            },
            None => {},
        }
        self.apply(event, &mut actions);
        self.last_result = Some(text.clone());
        ask(&mut actions, Action::Publish(CoordinatorUpdate::Result(text)));
        self.session = None;
        actions
    }

    /// No words came back. Silence is judged by audio energy, never by the
    /// transcript alone; a stale completion is dropped.
    pub fn fail_transcription(
        &mut self,
        id: u128,
        error: &TranscriptionError,
        separation: Option<Decibels>,
    ) -> (actions: Vec<Action>)
        ensures
            final(self)@ == old(self)@.transcription_failed(id, error@, separation).to,
            asked(actions@) == old(self)@.transcription_failed(id, error@, separation).actions,
    {
        let mut actions: Vec<Action> = Vec::new();
        assert(asked(actions@) =~= Seq::<ActionView>::empty());
        let (peak, mut meta) = match &self.session {
            Some(session) => {
                if session.id != id {
                    return actions;
                }
                (session.peak_level, session.meta.clone())
            },
            None => {
                return actions;
            },
        };
        if matches!(error, TranscriptionError::EmptyTranscript) {
            let blip = match meta.audio_duration {
                Some(length) => length.nanos < EMPTY_TRANSCRIPT_BLIP,
                None => true,
            };
            // Energy decides; the duration only covers true blips. A loud
            // one-second "Hi!" with a dropped transcript is a real failure.
            if peak.bits < SILENCE_PEAK_THRESHOLD || blip {
                self.silence(SilenceReason::NoSpeech, &mut actions);
                self.apply(DictationEvent::SilenceOnly, &mut actions);
                self.discard(&mut actions);
                return actions;
            }
            let barely_above = match separation {
                Some(snr) => snr.key < EMPTY_TRANSCRIPT_SNR_THRESHOLD,
                None => false,
            };
            if self.noise_handling_active && barely_above {
                // Kept as a failed row: a silent one would be invisible, while the
                // pill says "saved to History".
                meta.status = SessionStatus::Failed;
                meta.error_code = Some("tooNoisy".to_owned());
                self.record(meta, &mut actions);
                self.silence(SilenceReason::TooNoisy, &mut actions);
                self.apply(DictationEvent::SilenceOnly, &mut actions);
                self.session = None;
                return actions;
            }
        }
        // Offline is not a failure: the audio queues and drains on reconnect.
        if matches!(error, TranscriptionError::Offline) {
            meta.status = SessionStatus::QueuedForRetry;
            meta.error_code = Some("offline".to_owned());
            self.record(meta, &mut actions);
            self.apply(DictationEvent::QueuedForRetry, &mut actions);
            self.session = None;
            return actions;
        }
        let (failure, code, detail) = classify(error);
        meta.status = SessionStatus::Failed;
        meta.error_code = Some(code.to_owned());
        meta.error_message = detail;
        self.record(meta, &mut actions);
        self.apply(DictationEvent::TranscriptFailed(failure), &mut actions);
        self.session = None;
        actions
    }

    /// Cancels the session. The machine decides first: a rejected cancel must
    /// not corrupt the record. Feedback is immediate, bookkeeping can wait.
    fn cancel_session(&mut self, hint: Option<String>) -> (actions: Vec<Action>)
        ensures
            final(self)@ == old(self)@.cancelled(opt_text(hint)).to,
            asked(actions@) == old(self)@.cancelled(opt_text(hint)).actions,
    {
        let mut actions: Vec<Action> = Vec::new();
        assert(asked(actions@) =~= Seq::<ActionView>::empty());
        if !self.apply(DictationEvent::Cancel, &mut actions) {
            ask(&mut actions, Action::Publish(CoordinatorUpdate::CoachingHint(hint)));
            return actions;
        }
        ask(&mut actions, Action::AbortUpload);
        self.hush(&mut actions);
        ask(&mut actions, Action::StopCapTimers);
        ask(&mut actions, Action::Publish(CoordinatorUpdate::CoachingHint(hint)));
        ask(&mut actions, Action::CancelCapture);
        actions
    }

    /// The microphone of a cancelled session has stopped; `captured` is how much
    /// it recorded, if it was still open. Long cancels and finished transcripts
    /// stay recoverable; blips leave no trace.
    pub fn complete_cancel(&mut self, captured: Option<Duration>) -> (actions: Vec<Action>)
        ensures
            final(self)@ == old(self)@.cancel_completed(captured).to,
            asked(actions@) == old(self)@.cancel_completed(captured).actions,
    {
        let mut actions: Vec<Action> = Vec::new();
        assert(asked(actions@) =~= Seq::<ActionView>::empty());
        let known = match &self.session {
            Some(session) => session.meta.audio_duration,
            None => None,
        };
        // Cancels after finalizing have no live capture: reading nothing here
        // would destroy a recording of any length.
        let length = match captured {
            Some(length) => length,
            None => match known {
                Some(length) => length,
                None => Duration { nanos: 0 },
            },
        };
        let has_transcript = match &self.session {
            Some(session) => session.meta.raw_transcript.is_some(),
            None => false,
        };
        if has_transcript || length.nanos >= CANCEL_KEEP_THRESHOLD {
            match self.meta() {
                Some(mut meta) => {
                    meta.status = SessionStatus::Cancelled;
                    if meta.audio_duration.is_none() {
                        meta.audio_duration = Some(length);
                    }
                    self.record(meta, &mut actions);
                },
                None => {},
            }
            self.session = None;
        } else {
            self.discard(&mut actions);
        }
        actions
    }
}

/// Listening on past key-up until the user actually stops talking.
#[derive(Debug, Clone, Copy, PartialEq, Eq, Structural)]
pub struct TrailingWatch {
    pub started: Duration,
    pub quiet_since: Option<Duration>,
}

impl TrailingWatch {
    pub fn new(now: Duration) -> (watch: Self)
        ensures
            watch == (TrailingWatch { started: now, quiet_since: None }),
    {
        TrailingWatch { started: now, quiet_since: None }
    }

    /// When the quiet that holds at `now` began.
    pub open spec fn quiet_from(self, now: Duration) -> Duration {
        match self.quiet_since {
            Some(since) => since,
            None => now,
        }
    }

    /// After a look at the level.
    pub open spec fn looked(self, now: Duration, level: Level, threshold: Level) -> TrailingWatch {
        TrailingWatch {
            quiet_since: if level.bits < threshold.bits {
                Some(self.quiet_from(now))
            } else {
                None
            },
            ..self
        }
    }

    /// Whether to keep listening: until the user has been quiet long enough, and
    /// never past the cap.
    pub open spec fn listens(self, now: Duration, level: Level, threshold: Level) -> bool {
        &&& now.minus(self.started).nanos < TRAILING_CAPTURE_CAP
        &&& level.bits < threshold.bits ==> now.minus(self.quiet_from(now)).nanos
            < TRAILING_QUIET_TO_STOP
    }

    /// One look at the level. Says whether to keep listening.
    pub fn poll(&mut self, now: Duration, level: Level, threshold: Level) -> (listening: bool)
        ensures
            *final(self) == old(self).looked(now, level, threshold),
            listening == old(self).listens(now, level, threshold),
    {
        if level.bits < threshold.bits {
            let since = match self.quiet_since {
                Some(since) => since,
                None => now,
            };
            self.quiet_since = Some(since);
            if now.saturating_sub(since).nanos >= TRAILING_QUIET_TO_STOP {
                return false;
            }
        } else {
            self.quiet_since = None;
        }
        now.saturating_sub(self.started).nanos < TRAILING_CAPTURE_CAP
    }
}

/// A word is not cut off: while the user is heard, and the cap is not reached,
/// the microphone stays open. And no room is loud enough to keep it open past
/// the cap.
pub proof fn the_last_word_is_heard_out(
    watch: TrailingWatch,
    now: Duration,
    level: Level,
    threshold: Level,
)
    ensures
        level.bits >= threshold.bits ==> (watch.listens(now, level, threshold) <==> now.minus(
            watch.started,
        ).nanos < TRAILING_CAPTURE_CAP),
        watch.listens(now, level, threshold) ==> now.minus(watch.started).nanos
            < TRAILING_CAPTURE_CAP,
{
}

/// Whether the session's recording is thrown away.
pub open spec fn discards(actions: Seq<ActionView>) -> bool {
    exists|i: int| 0 <= i < actions.len() && #[trigger] actions[i] is Discard
}

/// Whether the audio is sent to the speech service.
pub open spec fn uploads(actions: Seq<ActionView>) -> bool {
    exists|i: int| 0 <= i < actions.len() && #[trigger] actions[i] is Upload
}

/// A session in flight is never touched by a tap or a chord: the transcript is
/// sacred.
pub proof fn taps_leave_a_session_in_flight_alone(c: CoordinatorView, room: Option<RoomReading>)
    requires
        c.in_flight(),
    ensures
        c.tapped(room) == Outcome::of(c),
        c.chorded(room) == Outcome::of(c),
{
}

/// A tap or a chord stops a hands-free recording exactly as a finalize does,
/// rather than destroying it.
pub proof fn taps_stop_hands_free_recordings(c: CoordinatorView, room: Option<RoomReading>)
    requires
        c.state == (DictationState::Recording { locked: true }),
    ensures
        c.tapped(room) == c.finalized(room),
        c.chorded(room) == c.finalized(room),
{
}

/// What comes back for a session that is no longer the live one changes nothing
/// and asks for nothing.
pub proof fn stale_completions_are_dropped(
    c: CoordinatorView,
    id: u128,
    outcome: ResultView,
    error: ErrorView,
    separation: Option<Decibels>,
)
    requires
        !c.owns(id),
    ensures
        c.transcribed(id, outcome) == Outcome::of(c),
        c.transcription_failed(id, error, separation) == Outcome::of(c),
{
}

/// The trailing threshold only ever rises above the absolute one, and never past
/// its cap.
pub proof fn the_trailing_threshold_is_bounded(c: CoordinatorView, room: Option<RoomReading>)
    ensures
        TRAILING_SPEECH_THRESHOLD <= c.trailing_threshold(room).bits <= TRAILING_RELATIVE_CAP,
{
}

/// A recording is thrown away after finalizing only if it holds no frames, is
/// too short for a word, or is provably a muted mic.
pub proof fn finalizing_discards_only_what_holds_no_words(
    c: CoordinatorView,
    result: CaptureView,
    now: int,
    separation: Option<Decibels>,
)
    requires
        discards(c.finalize_completed(result, now, separation).actions),
    ensures
        ({
            ||| result.frames_written == 0
            ||| result.duration.nanos < MINIMUM_SENDABLE_DURATION
            ||| c.digital_silence(result, separation)
        }),
        !uploads(c.finalize_completed(result, now, separation).actions),
{
}

/// A recording long enough for a word whose loudness nobody measured is always
/// uploaded.
pub proof fn unmeasured_audio_is_uploaded(
    c: CoordinatorView,
    result: CaptureView,
    now: int,
    separation: Option<Decibels>,
)
    requires
        c.session is Some,
        result.frames_written > 0,
        result.duration.nanos >= MINIMUM_SENDABLE_DURATION,
        !result.peak_is_trustworthy || separation is None,
    ensures
        uploads(c.finalize_completed(result, now, separation).actions),
        !discards(c.finalize_completed(result, now, separation).actions),
{
    let actions = c.finalize_completed(result, now, separation).actions;
    assert(actions.last() is Upload);
    assert(actions[actions.len() - 1] is Upload);
}

/// Whatever goes wrong with a transcription, a recording with speech energy and
/// some length is never thrown away.
pub proof fn failures_never_lose_speech(
    c: CoordinatorView,
    id: u128,
    error: ErrorView,
    separation: Option<Decibels>,
)
    requires
        c.session matches Some(session) && !CoordinatorView::quiet_audio(session),
    ensures
        !discards(c.transcription_failed(id, error, separation).actions),
{
}

/// Being offline is not a failure: the recording is queued, as a row that the
/// retry queue takes up.
pub proof fn offline_queues_the_recording(
    c: CoordinatorView,
    id: u128,
    separation: Option<Decibels>,
)
    requires
        c.owns(id),
        c.state == DictationState::Transcribing,
    ensures
        ({
            let outcome = c.transcription_failed(id, ErrorView::Offline, separation);
            &&& outcome.to.state == DictationState::Done(
                crate::state_machine::DictationOutcome::QueuedForRetry,
            )
            &&& outcome.actions[0] matches ActionView::Save { meta, folder } && meta.status
                == SessionStatus::QueuedForRetry && RecordView::of(meta, folder).retryable()
            &&& !discards(outcome.actions)
        }),
{
}

/// A cancelled recording of ten seconds or more, or one that already has its
/// words, stays recoverable.
pub proof fn long_cancels_stay_recoverable(c: CoordinatorView, captured: Option<Duration>)
    requires
        c.session is Some,
        c.worth_keeping(captured),
    ensures
        ({
            let outcome = c.cancel_completed(captured);
            &&& !discards(outcome.actions)
            &&& outcome.actions.len() == 1
            &&& outcome.actions[0] matches ActionView::Save { meta, folder } && meta.status
                == SessionStatus::Cancelled && folder == (c.session->0).folder
                && meta.raw_transcript == (c.session->0).meta.raw_transcript
        }),
{
}

/// A short cancel without words leaves no trace.
pub proof fn short_cancels_leave_no_trace(c: CoordinatorView, captured: Option<Duration>)
    requires
        c.session is Some,
        !c.worth_keeping(captured),
    ensures
        c.cancel_completed(captured).actions == seq![
            ActionView::Discard { id: (c.session->0).id, folder: (c.session->0).folder },
        ],
        c.cancel_completed(captured).to.session is None,
{
}

proof fn lemma_not_hidden(status: SessionStatus)
    requires
        !status.in_flight(),
        !(status is Silent),
    ensures
        status.label() != SessionStatus::Silent.label(),
        status.label() != SessionStatus::Recording.label(),
        status.label() != SessionStatus::Recorded.label(),
        status.label() != SessionStatus::Transcribing.label(),
{
    status_labels_are_distinct(status, SessionStatus::Silent);
    status_labels_are_distinct(status, SessionStatus::Recording);
    status_labels_are_distinct(status, SessionStatus::Recorded);
    status_labels_are_distinct(status, SessionStatus::Transcribing);
}

/// Whatever goes wrong with a transcription, a recording with speech energy and
/// some length is saved as a row that History shows.
pub proof fn failed_sessions_are_shown_in_history(
    c: CoordinatorView,
    id: u128,
    error: ErrorView,
    separation: Option<Decibels>,
)
    requires
        c.owns(id),
        !CoordinatorView::quiet_audio(c.session->0),
    ensures
        c.transcription_failed(id, error, separation).actions[0] matches ActionView::Save {
            meta,
            folder,
        } && RecordView::of(meta, folder).visible(),
{
    lemma_not_hidden(SessionStatus::Failed);
    lemma_not_hidden(SessionStatus::QueuedForRetry);
}

/// A cancelled recording that is worth keeping is saved as a row that History
/// shows.
pub proof fn kept_cancels_are_shown_in_history(c: CoordinatorView, captured: Option<Duration>)
    requires
        c.session matches Some(session) && (session.meta.audio_duration is None || captured
            is None),
        c.worth_keeping(captured),
    ensures
        c.cancel_completed(captured).actions[0] matches ActionView::Save { meta, folder }
            && RecordView::of(meta, folder).visible(),
{
    lemma_not_hidden(SessionStatus::Cancelled);
}

/// Wherever the words end up, they are in History too.
pub proof fn every_transcript_is_shown_in_history(
    c: CoordinatorView,
    id: u128,
    words: ResultView,
    insertion: InsertionOutcome,
    text: Seq<char>,
    pipeline_time: Duration,
)
    requires
        c.owns(id),
    ensures
        ({
            let inserting = c.transcribed(id, words).to;
            inserting.inserted(insertion, text, pipeline_time).actions[0] matches ActionView::Save {
                meta,
                folder,
            } && RecordView::of(meta, folder).visible() && RecordView::of(meta, folder).display()
                == words.cleaned_transcript
        }),
{
    lemma_not_hidden(status_of(insertion));
}

/// However a session ends, the coordinator lets it go.
pub proof fn every_ending_lets_the_session_go(
    c: CoordinatorView,
    id: u128,
    insertion: InsertionOutcome,
    text: Seq<char>,
    pipeline_time: Duration,
    error: ErrorView,
    separation: Option<Decibels>,
    captured: Option<Duration>,
)
    requires
        c.owns(id),
    ensures
        c.inserted(insertion, text, pipeline_time).to.session is None,
        c.transcription_failed(id, error, separation).to.session is None,
        c.cancel_completed(captured).to.session is None,
        c.no_speech().to.session is None,
{
}

/// A lock that arrives while the engine is coming up is not dropped: the
/// recording starts locked.
pub proof fn a_lock_during_warming_is_latched(c: CoordinatorView, id: u128)
    requires
        c.owns(id),
        c.state == DictationState::Warming,
    ensures
        c.locked_in().to.capture_started(id).to.state == (DictationState::Recording {
            locked: true,
        }),
{
}

/// A begun session has its record on disk before anything else is asked for, is
/// mirrored into the history index, and has its microphone started last. It
/// forgets every latch and measurement of the one before.
pub proof fn a_session_begins_clean(
    c: CoordinatorView,
    id: u128,
    folder: Seq<char>,
    started_at: int,
    context: ContextView,
    noise_handling: bool,
)
    ensures
        ({
            let begun = c.begun(id, folder, started_at, context, noise_handling);
            &&& begun.to.owns(id)
            &&& !begun.to.pending_lock_in
            &&& begun.to.noise_floor.samples.len() == 0
            &&& begun.actions[0] == (ActionView::Write { meta: (begun.to.session->0).meta, folder })
            &&& begun.actions.contains(
                ActionView::Save { meta: (begun.to.session->0).meta, folder },
            )
            &&& (begun.to.session->0).meta.status == SessionStatus::Recording
            &&& begun.actions.last() == (ActionView::StartCapture { id, folder })
        }),
{
    let begun = c.begun(id, folder, started_at, context, noise_handling);
    assert(begun.actions[4] == (ActionView::Save { meta: (begun.to.session->0).meta, folder }));
}

/// The whole way: a session that begins, records something worth sending, is
/// transcribed and lands at the cursor ends as inserted, with its words as the
/// last result and their status on record.
pub proof fn a_held_key_runs_the_whole_pipeline(
    c: CoordinatorView,
    id: u128,
    folder: Seq<char>,
    started_at: int,
    context: ContextView,
    noise_handling: bool,
    room: Option<RoomReading>,
    result: CaptureView,
    now: int,
    separation: Option<Decibels>,
    words: ResultView,
    pipeline_time: Duration,
)
    requires
        c.may_begin(),
        result.frames_written > 0,
        result.duration.nanos >= MINIMUM_SENDABLE_DURATION,
        !c.digital_silence(result, separation),
    ensures
        ({
            let warming = c.begun(id, folder, started_at, context, noise_handling).to;
            let recording = warming.capture_started(id).to;
            let finalizing = recording.finalized(room).to;
            let transcribing = finalizing.finalize_completed(result, now, separation).to;
            let inserting = transcribing.transcribed(id, words).to;
            let done = inserting.inserted(
                InsertionOutcome::Inserted,
                words.cleaned_transcript,
                pipeline_time,
            );
            &&& warming.state == DictationState::Warming
            &&& recording.state == (DictationState::Recording { locked: false })
            &&& finalizing.state == DictationState::Finalizing
            &&& transcribing.state == DictationState::Transcribing
            &&& inserting.state == DictationState::Inserting
            &&& done.to.state == DictationState::Done(
                crate::state_machine::DictationOutcome::Inserted,
            )
            &&& done.to.last_result == Some(words.cleaned_transcript)
            &&& done.to.session is None
            &&& done.actions[0] matches ActionView::Save { meta, .. } && meta.status
                == SessionStatus::Inserted && meta.raw_transcript == Some(words.raw_transcript)
                && meta.id == id
        }),
{
}

/// Letting go of the key stops a recording, or one that is still warming up: the
/// timers are stopped, the meter drops, and the microphone is finished, heard out
/// first if the user is still at or above the level of speech. The session is
/// kept. In any other state nothing happens.
pub proof fn letting_go_finishes_the_capture(c: CoordinatorView, room: Option<RoomReading>)
    ensures
        ({
            let live = c.session is Some && (c.state is Warming || c.state is Recording);
            let done = c.handled(HotkeyIntent::Finalize, room);
            &&& !live ==> done == Outcome::of(c)
            &&& live ==> {
                &&& done.to.state == DictationState::Finalizing
                &&& done.to.session == c.session
                &&& done.to.last_result == c.last_result
                &&& done.actions =~= seq![
                    ActionView::Publish(UpdateView::State(DictationState::Finalizing)),
                    ActionView::StopCapTimers,
                    ActionView::Publish(UpdateView::MicLevel(Level { bits: 0 })),
                    ActionView::FinishCapture {
                        still_talking: c.latest_level.bits >= c.trailing_threshold(room).bits,
                    },
                ]
            }
        }),
{
}

/// The level of speech is 0.08 unless the user asked for noise handling and the
/// session has told speech from the room by 12 dB; then it is that of the room, but
/// not below 0.08 nor above 0.30.
pub proof fn the_level_of_speech(c: CoordinatorView, room: Option<RoomReading>)
    ensures
        ({
            let level = c.trailing_threshold(room).bits;
            let trusted = c.noise_handling_active && (room matches Some(reading)
                && reading.separation.key >= 0x4028_0000_0000_0000);
            let above = (room->0).above_room.bits;
            &&& !trusted ==> level == 0x3DA3_D70A
            &&& trusted && 0x3DA3_D70A <= above <= 0x3E99_999A ==> level == above
            &&& trusted && above < 0x3DA3_D70A ==> level == 0x3DA3_D70A
            &&& trusted && above > 0x3E99_999A ==> level == 0x3E99_999A
        }),
{
}

/// Esc ends any session without text: the upload is aborted, the meter drops, the
/// timers stop, and the microphone is stopped to see what there is to keep. While
/// the text is being inserted, and outside a session, it only clears the hint.
pub proof fn esc_cancels_the_session(c: CoordinatorView, room: Option<RoomReading>)
    ensures
        ({
            let live = c.state is Warming || c.state is Recording || c.state is Finalizing
                || c.state is Transcribing;
            let done = c.handled(HotkeyIntent::Cancel, room);
            &&& !live ==> done.to == c && done.actions =~= seq![
                ActionView::Publish(UpdateView::CoachingHint(None)),
            ]
            &&& live ==> {
                &&& done.to.state == DictationState::Cancelled
                &&& done.to.session == c.session
                &&& done.actions =~= seq![
                    ActionView::Publish(UpdateView::State(DictationState::Cancelled)),
                    ActionView::AbortUpload,
                    ActionView::Publish(UpdateView::MicLevel(Level { bits: 0 })),
                    ActionView::StopCapTimers,
                    ActionView::Publish(UpdateView::CoachingHint(None)),
                    ActionView::CancelCapture,
                ]
            }
        }),
{
}

/// A tap cancels its own young session and shows the tip; outside a session it
/// shows the tip alone. A chord cancels its own young session without a word, and
/// outside one does nothing.
pub proof fn taps_and_chords_cancel_their_own(c: CoordinatorView, room: Option<RoomReading>)
    ensures
        ({
            let young = c.state is Warming || c.state == (DictationState::Recording {
                locked: false,
            });
            let tap = c.handled(HotkeyIntent::ShortTapHint, room);
            let chord = c.handled(HotkeyIntent::AbortAccidental, room);
            let tip = UpdateView::CoachingHint(
                Some("Hold to talk · tap Space while holding for hands-free"@),
            );
            &&& young ==> tap.to.state == DictationState::Cancelled && tap.actions.contains(
                ActionView::CancelCapture,
            ) && tap.actions.contains(ActionView::Publish(tip)) && tap.to.session == c.session
            &&& young ==> chord == c.handled(HotkeyIntent::Cancel, room)
            &&& c.may_begin() ==> tap.to == c && tap.actions =~= seq![ActionView::Publish(tip)]
            &&& c.may_begin() ==> chord == Outcome::of(c)
        }),
{
    let tap = c.handled(HotkeyIntent::ShortTapHint, room);
    if c.state is Warming || c.state == (DictationState::Recording { locked: false }) {
        assert(tap.actions[4] == ActionView::Publish(UpdateView::CoachingHint(Some(COACH_TIP@))));
        assert(tap.actions[5] == ActionView::CancelCapture);
    }
}

/// Whether an intent is taken: a session begins exactly if none is live, a lock is
/// taken while warming up or recording unlocked, and everything else always is.
pub proof fn a_session_begins_only_when_none_is_live(c: CoordinatorView, intent: HotkeyIntent)
    ensures
        c.received(HotkeyIntent::Begin) == Reception::MayBegin <==> c.state is Idle || c.state
            is Done || c.state is Cancelled || c.state is Failed,
        c.received(HotkeyIntent::Begin) != Reception::MayBegin ==> c.received(HotkeyIntent::Begin)
            == Reception::Refused,
        c.received(HotkeyIntent::LockIn) == Reception::Accepted <==> c.state is Warming || c.state
            == (DictationState::Recording { locked: false }),
        c.received(HotkeyIntent::LockIn) != Reception::Accepted ==> c.received(
            HotkeyIntent::LockIn,
        ) == Reception::Refused,
        !(intent is Begin) && !(intent is LockIn) ==> c.received(intent) == Reception::Accepted,
        c.handled(HotkeyIntent::Begin, None) == Outcome::of(c),
{
}

/// A lock locks the recording there is, or waits for the one that is warming up;
/// elsewhere it changes nothing.
pub proof fn a_lock_locks_the_recording(c: CoordinatorView, room: Option<RoomReading>)
    ensures
        ({
            let done = c.handled(HotkeyIntent::LockIn, room);
            &&& c.state is Warming ==> done.to.pending_lock_in && done.to.state == c.state
                && done.to.session == c.session && done.actions.len() == 0
            &&& c.state == (DictationState::Recording { locked: false }) ==> done.to.state == (
            DictationState::Recording { locked: true }) && done.to.session == c.session
                && done.actions =~= seq![
                ActionView::Publish(
                    UpdateView::State(DictationState::Recording { locked: true }),
                ),
            ]
            &&& !(c.state is Warming) && c.state != (DictationState::Recording { locked: false })
                ==> done == Outcome::of(c)
        }),
{
}

/// Nothing is recorded over a password field: such a session is refused, and said
/// to be.
pub proof fn a_password_field_refuses_the_session(
    c: DictationCoordinator,
    secure: bool,
    allowed: (bool, Vec<Action>),
)
    requires
        call_ensures(DictationCoordinator::allow_begin, (&c, secure), allowed),
    ensures
        allowed.0 <==> !secure,
        secure ==> allowed.1@.len() == 1 && allowed.1@[0]@ == ActionView::Publish(
            UpdateView::CoachingHint(Some("Can't dictate here — a password field has focus"@)),
        ),
        !secure ==> allowed.1@.len() == 0,
{
    let actions = asked(allowed.1@);
    assert(actions.len() == allowed.1@.len());
    if secure {
        assert(actions[0] == allowed.1@[0]@);
    }
}

/// A session that begins is the caller's: its id, folder, start and context, with a
/// record that says no more than that; it is told that it warms up, and what the
/// last session left is gone.
pub proof fn a_begun_session_is_the_callers(
    c: CoordinatorView,
    id: u128,
    folder: Seq<char>,
    started_at: int,
    context: ContextView,
    noise_handling: bool,
)
    ensures
        ({
            let begun = c.begun(id, folder, started_at, context, noise_handling);
            let session = begun.to.session->0;
            let meta = session.meta;
            &&& begun.to.state == DictationState::Warming
            &&& begun.to.session is Some
            &&& begun.to.noise_handling_active == noise_handling
            &&& begun.to.last_result == c.last_result
            &&& session.id == id && session.folder == folder && session.started_at == started_at
            &&& session.context == context
            &&& session.peak_level.bits == 0x3F80_0000
            &&& meta.id == id && meta.started_at == started_at
            &&& meta.target_app_exe == context.target_app_exe
            &&& meta.target_app_name == context.target_app_name
            &&& meta.raw_transcript is None && meta.cleaned_transcript is None
            &&& meta.error_code is None && meta.audio_duration is None
            &&& begun.actions.len() == 6
            &&& begun.actions[1] is WarmConnection
            &&& begun.actions[2] == ActionView::Publish(
                UpdateView::State(DictationState::Warming),
            )
            &&& begun.actions[3] == ActionView::Publish(UpdateView::CoachingHint(None))
            &&& begun.actions[4] == (ActionView::Save { meta, folder })
        }),
{
}

/// The microphone that opens for the live session starts its recording, locked if
/// a lock came meanwhile, with its timers; one that opens for a session that is
/// gone is stopped, and nothing else changes.
pub proof fn an_open_microphone_records_its_own_session(c: CoordinatorView, id: u128)
    ensures
        !c.owns(id) ==> c.capture_started(id).to == c && c.capture_started(id).actions =~= seq![
            ActionView::AbandonCapture,
        ],
        c.owns(id) && c.state is Warming ==> {
            let done = c.capture_started(id);
            &&& done.to.state == (DictationState::Recording { locked: c.pending_lock_in })
            &&& done.to.session == c.session
            &&& !done.to.pending_lock_in
            &&& done.actions.last() is StartCapTimers
            &&& forall|i: int| 0 <= i < done.actions.len() - 1 ==> #[trigger] done.actions[i]
                is Publish
        },
        c.owns(id) <==> (c.session matches Some(session) && session.id == id),
{
}

/// A microphone that does not open ends its session as a failure and leaves
/// nothing of it; only where there is no microphone at all is that said.
pub proof fn a_microphone_that_fails_leaves_nothing(c: CoordinatorView, error: CaptureError)
    requires
        c.session is Some,
        c.state is Warming,
    ensures
        ({
            let failure = if error is NoInputDevice {
                DictationFailure::NoMicrophone
            } else {
                DictationFailure::Audio
            };
            let done = c.capture_failed(failure_to_open(error));
            &&& done.to.state == DictationState::Failed(failure)
            &&& done.to.session is None
            &&& done.actions =~= seq![
                ActionView::Publish(UpdateView::State(DictationState::Failed(failure))),
                ActionView::Discard { id: (c.session->0).id, folder: (c.session->0).folder },
            ]
        }),
{
}

/// Every level is remembered and goes into the measure of the room; the meter
/// follows only while it is shown.
pub proof fn every_level_is_heard(
    c: CoordinatorView,
    level: Level,
    db: Decibels,
    update_meter: bool,
)
    ensures
        ({
            let done = c.metered(level, db, update_meter);
            &&& done.to.latest_level == level
            &&& done.to.noise_floor == c.noise_floor.heard(db)
            &&& done.to.state == c.state
            &&& done.to.session == c.session
            &&& update_meter ==> done.to.mic_level == level && done.actions =~= seq![
                ActionView::Publish(UpdateView::MicLevel(level)),
            ]
            &&& !update_meter ==> done.to.mic_level == c.mic_level && done.actions.len() == 0
        }),
{
}

/// Ten minutes in, a recording is finished as if the key had been let go of, and
/// nothing else is touched. The warning a minute before, and a change of device,
/// are shown only while recording.
pub proof fn a_recording_is_capped(
    c: DictationCoordinator,
    room: Option<RoomReading>,
    message: String,
    warned: Vec<Action>,
    switched: Vec<Action>,
)
    requires
        call_ensures(DictationCoordinator::cap_warning_due, (&c,), warned),
        call_ensures(DictationCoordinator::device_changed, (&c, message), switched),
    ensures
        c@.state is Recording ==> c@.capped(room) == c@.handled(HotkeyIntent::Finalize, room),
        !(c@.state is Recording) ==> c@.capped(room) == Outcome::of(c@),
        c@.state is Recording ==> asked(warned@) =~= seq![
            ActionView::Publish(
                UpdateView::CoachingHint(Some("One minute left — 10-minute limit"@)),
            ),
        ] && asked(switched@) =~= seq![
            ActionView::Publish(UpdateView::CoachingHint(Some(message@))),
        ],
        !(c@.state is Recording) ==> warned@.len() == 0 && switched@.len() == 0,
        RECORDING_WARN == 540_000_000_000,
        RECORDING_CAP == 600_000_000_000,
{
    assert(asked(warned@).len() == warned@.len());
    assert(asked(switched@).len() == switched@.len());
}

/// A recording with frames is sent if it lasts four tenths of a second or longer,
/// unless its peak, which was measured, is below 0.06 and rose less than 6 dB above
/// a room that was measured too. What is sent is this session's recording, and its
/// record says how long it is.
pub proof fn speech_is_sent(
    c: CoordinatorView,
    result: CaptureView,
    now: int,
    separation: Option<Decibels>,
)
    requires
        c.session is Some,
        c.state == DictationState::Finalizing,
        result.frames_written > 0,
    ensures
        ({
            let session = c.session->0;
            let muted = result.peak_is_trustworthy && result.peak_level.bits < 0x3D75_C28F && (
            separation matches Some(snr) && snr.key < 0x4018_0000_0000_0000);
            let done = c.finalize_completed(result, now, separation);
            &&& done.actions[0] matches ActionView::Save { meta, folder } && folder
                == session.folder && meta.status == SessionStatus::Recorded && meta.audio_duration
                == Some(result.duration) && meta.gap_markers == result.gap_markers && meta.id
                == session.meta.id && meta.raw_transcript == session.meta.raw_transcript
                && meta.noise_floor == c.noise_floor.floor() && (meta.speech_peak is Some
                <==> meta.noise_floor is Some)
            &&& result.duration.nanos >= 400_000_000 && !muted ==> {
                &&& done.to.state == DictationState::Transcribing
                &&& done.to.session is Some
                &&& (done.to.session->0).id == session.id
                &&& (done.to.session->0).peak_level == result.peak_level
                &&& done.actions.last() == (ActionView::Upload {
                    id: session.id,
                    folder: session.folder,
                    duration: result.duration,
                    context: session.context,
                })
            }
            &&& result.duration.nanos < 400_000_000 || muted ==> {
                &&& done.to.state == DictationState::Done(
                    crate::state_machine::DictationOutcome::Silent,
                )
                &&& done.to.session is None
                &&& done.to.last_silence_reason == SilenceReason::NoSpeech
                &&& done.actions.last() == (ActionView::Discard {
                    id: session.id,
                    folder: session.folder,
                })
                &&& !uploads(done.actions)
            }
        }),
{
}

/// A recording without a frame is thrown away: as silence if the key was held for
/// less than eight tenths of a second, as a failure of the microphone otherwise.
pub proof fn no_frames_are_silence_or_a_failure(
    c: CoordinatorView,
    result: CaptureView,
    now: int,
    separation: Option<Decibels>,
)
    requires
        c.session is Some,
        c.state == DictationState::Finalizing,
        result.frames_written == 0,
    ensures
        ({
            let session = c.session->0;
            let done = c.finalize_completed(result, now, separation);
            &&& now - session.started_at < 800_000_000 ==> done.to.state == DictationState::Done(
                crate::state_machine::DictationOutcome::Silent,
            )
            &&& now - session.started_at >= 800_000_000 ==> done.to.state
                == DictationState::Failed(DictationFailure::NoAudio)
            &&& done.to.session is None
            &&& done.actions.last() == (ActionView::Discard {
                id: session.id,
                folder: session.folder,
            })
            &&& !uploads(done.actions)
        }),
{
}

/// Words that come back for the live session are saved with it before they are
/// inserted, and what is inserted is the cleaned text, where the user was dictating.
pub proof fn words_are_saved_and_then_inserted(c: CoordinatorView, id: u128, words: ResultView)
    requires
        c.session matches Some(session) && session.id == id,
        c.state == DictationState::Transcribing,
    ensures
        ({
            let session = c.session->0;
            let done = c.transcribed(id, words);
            &&& done.to.state == DictationState::Inserting
            &&& done.actions.len() == 3
            &&& done.actions[0] matches ActionView::Save { meta, folder } && folder
                == session.folder && meta.raw_transcript == Some(words.raw_transcript)
                && meta.cleaned_transcript == Some(words.cleaned_transcript) && meta.model_id
                == Some(words.model_id) && meta.status == SessionStatus::Transcribing && meta.id
                == session.meta.id && meta.audio_duration == session.meta.audio_duration
            &&& done.actions[2] == (ActionView::Insert {
                text: words.cleaned_transcript,
                context: session.context,
            })
            &&& (done.to.session->0).meta.raw_transcript == Some(words.raw_transcript)
        }),
{
}

/// However the insertion went, the session ends as it went, its record says so and
/// how long it took, and the text is the last result.
pub proof fn an_insertion_ends_as_it_went(
    c: CoordinatorView,
    insertion: InsertionOutcome,
    text: Seq<char>,
    pipeline_time: Duration,
)
    requires
        c.session is Some,
        c.state == DictationState::Inserting,
    ensures
        ({
            let session = c.session->0;
            let done = c.inserted(insertion, text, pipeline_time);
            let status = match insertion {
                InsertionOutcome::Inserted => SessionStatus::Inserted,
                InsertionOutcome::FrontmostChanged => SessionStatus::AwaitingChip,
                InsertionOutcome::FellBackToClipboard => SessionStatus::CopiedToClipboard,
                InsertionOutcome::BlockedSecureField => SessionStatus::HeldSecure,
            };
            let ending = match insertion {
                InsertionOutcome::Inserted => crate::state_machine::DictationOutcome::Inserted,
                InsertionOutcome::FrontmostChanged =>
                    crate::state_machine::DictationOutcome::AwaitingChip,
                InsertionOutcome::FellBackToClipboard =>
                    crate::state_machine::DictationOutcome::CopiedToClipboard,
                InsertionOutcome::BlockedSecureField =>
                    crate::state_machine::DictationOutcome::HeldForSecureField,
            };
            &&& done.to.state == DictationState::Done(ending)
            &&& done.to.last_result == Some(text)
            &&& done.to.session is None
            &&& done.actions[0] matches ActionView::Save { meta, folder } && folder
                == session.folder && meta.status == status && meta.pipeline_time == Some(
                pipeline_time,
            ) && meta.raw_transcript == session.meta.raw_transcript && meta.cleaned_transcript
                == session.meta.cleaned_transcript && meta.id == session.meta.id
            &&& done.actions.last() == ActionView::Publish(UpdateView::Result(text))
            &&& !discards(done.actions)
        }),
{
}

/// A transcript that came back empty is silence where the peak is below 0.06 or the
/// clip is shorter than six tenths of a second; with noise handling, and less than
/// 8 dB above the room, it is kept as a row that says it was too noisy; otherwise it
/// is a failure that is kept.
pub proof fn an_empty_transcript_is_judged_by_its_sound(
    c: CoordinatorView,
    id: u128,
    separation: Option<Decibels>,
)
    requires
        c.session matches Some(session) && session.id == id,
        c.state == DictationState::Transcribing,
    ensures
        ({
            let session = c.session->0;
            let quiet = session.peak_level.bits < 0x3D75_C28F || session.meta.audio_duration is None
                || (session.meta.audio_duration->0).nanos < 600_000_000;
            let noisy = c.noise_handling_active && (separation matches Some(snr) && snr.key
                < 0x4020_0000_0000_0000);
            let done = c.transcription_failed(id, ErrorView::EmptyTranscript, separation);
            &&& done.to.session is None
            &&& quiet ==> {
                &&& done.to.state == DictationState::Done(
                    crate::state_machine::DictationOutcome::Silent,
                )
                &&& done.to.last_silence_reason == SilenceReason::NoSpeech
                &&& done.actions.last() == (ActionView::Discard {
                    id: session.id,
                    folder: session.folder,
                })
            }
            &&& !quiet && noisy ==> {
                &&& done.to.state == DictationState::Done(
                    crate::state_machine::DictationOutcome::Silent,
                )
                &&& done.to.last_silence_reason == SilenceReason::TooNoisy
                &&& done.actions[0] matches ActionView::Save { meta, folder } && folder
                    == session.folder && meta.status == SessionStatus::Failed && meta.error_code
                    == Some("tooNoisy"@)
                &&& !discards(done.actions)
            }
            &&& !quiet && !noisy ==> {
                &&& done.to.state == DictationState::Failed(DictationFailure::Validation)
                &&& done.actions[0] matches ActionView::Save { meta, folder } && folder
                    == session.folder && meta.status == SessionStatus::Failed && meta.error_code
                    == Some("empty"@)
                &&& !discards(done.actions)
            }
        }),
{
}

/// Any other failure is shown as what it is and kept as a failed row, under its
/// code; only being offline is not a failure.
pub proof fn a_failure_is_shown_as_what_it_is(
    c: CoordinatorView,
    id: u128,
    error: ErrorView,
    separation: Option<Decibels>,
)
    requires
        c.session matches Some(session) && session.id == id,
        c.state == DictationState::Transcribing,
        !(error is EmptyTranscript),
        !(error is Offline),
    ensures
        ({
            let session = c.session->0;
            let done = c.transcription_failed(id, error, separation);
            let code = match error {
                ErrorView::BadRequest(_) => "bad_request"@,
                ErrorView::ModelUnavailable { .. } => "model"@,
                ErrorView::Network(_) => "network"@,
                ErrorView::Auth => "auth"@,
                ErrorView::RateLimitedDaily => "quota"@,
                ErrorView::RateLimitedTransient => "rate_limit"@,
                ErrorView::Timeout => "timeout"@,
                _ => "safety"@,
            };
            let failure = match error {
                ErrorView::BadRequest(_) => DictationFailure::BadRequest,
                ErrorView::ModelUnavailable { .. } => DictationFailure::ModelAccess,
                ErrorView::Network(_) => DictationFailure::Network,
                ErrorView::Auth => DictationFailure::Auth,
                ErrorView::RateLimitedDaily => DictationFailure::QuotaExhausted,
                ErrorView::RateLimitedTransient => DictationFailure::RateLimited,
                ErrorView::Timeout => DictationFailure::Timeout,
                _ => DictationFailure::SafetyBlocked,
            };
            &&& done.to.state == DictationState::Failed(failure)
            &&& done.to.session is None
            &&& done.actions[0] matches ActionView::Save { meta, folder } && folder
                == session.folder && meta.status == SessionStatus::Failed && meta.error_code
                == Some(code) && meta.raw_transcript == session.meta.raw_transcript && meta.id
                == session.meta.id && meta.audio_duration == session.meta.audio_duration && (
            error matches ErrorView::BadRequest(message) ==> meta.error_message == Some(message))
                && (error matches ErrorView::ModelUnavailable { detail, .. } ==> (detail is Some
                ==> meta.error_message == detail))
            &&& !discards(done.actions)
        }),
{
}

/// A transient failure of the service is one that the retry queue takes up again;
/// a refusal is not.
pub proof fn transient_failures_are_retried(
    c: CoordinatorView,
    id: u128,
    error: ErrorView,
    separation: Option<Decibels>,
)
    requires
        c.session matches Some(session) && session.id == id,
        c.state == DictationState::Transcribing,
        error is Network || error is Timeout || error is RateLimitedTransient,
    ensures
        c.transcription_failed(id, error, separation).actions[0] matches ActionView::Save {
            meta,
            folder,
        } && RecordView::of(meta, folder).retryable(),
{
    status_labels_are_distinct(SessionStatus::Failed, SessionStatus::QueuedForRetry);
}

/// A cancelled recording is kept exactly if it already has its words or is ten
/// seconds long or longer, by what the microphone reports, else by what its record
/// says; what is not kept leaves no trace.
pub proof fn a_cancelled_recording_is_kept_from_ten_seconds(
    c: CoordinatorView,
    captured: Option<Duration>,
)
    requires
        c.session is Some,
    ensures
        ({
            let session = c.session->0;
            let long = match captured {
                Some(length) => length.nanos >= 10_000_000_000,
                None => session.meta.audio_duration matches Some(length) && length.nanos
                    >= 10_000_000_000,
            };
            let keeps = session.meta.raw_transcript is Some || long;
            let done = c.cancel_completed(captured);
            &&& done.to.session is None
            &&& done.to.state == c.state
            &&& done.actions.len() == 1
            &&& keeps ==> (done.actions[0] matches ActionView::Save { meta, folder } && folder
                == session.folder && meta.status == SessionStatus::Cancelled && meta.id
                == session.meta.id && meta.cleaned_transcript == session.meta.cleaned_transcript
                && (session.meta.audio_duration is Some ==> meta.audio_duration
                == session.meta.audio_duration) && (session.meta.audio_duration is None && captured
                is Some ==> meta.audio_duration == captured))
            &&& !keeps ==> done.actions[0] == (ActionView::Discard {
                id: session.id,
                folder: session.folder,
            })
        }),
{
}

/// Something that breaks mid-recording is noted in the record, shown if there is
/// something to show, and the recording is finished with what there is. Outside a
/// recording it is ignored.
pub proof fn what_breaks_is_noted_and_finished(
    c: CoordinatorView,
    code: Seq<char>,
    hint: Option<Seq<char>>,
    room: Option<RoomReading>,
)
    ensures
        !(c.state is Recording) ==> c.broken(code, hint, room) == Outcome::of(c),
        c.state is Recording && c.session is Some ==> {
            let session = c.session->0;
            let done = c.broken(code, hint, room);
            &&& done.to.state == DictationState::Finalizing
            &&& (done.to.session->0).meta.error_code == Some(code)
            &&& (done.to.session->0).id == session.id
            &&& done.actions[0] matches ActionView::Save { meta, folder } && folder
                == session.folder && meta.error_code == Some(code) && meta.raw_transcript
                == session.meta.raw_transcript
            &&& hint matches Some(line) ==> done.actions[1] == ActionView::Publish(
                UpdateView::CoachingHint(Some(line)),
            )
            &&& done.actions.last() is FinishCapture
            &&& !discards(done.actions)
        },
{
}

/// Each error of the service has the failure it is shown as, the code it is stored
/// under, and the detail that is worth keeping.
pub proof fn an_error_is_classified(
    error: TranscriptionError,
    mapped: (DictationFailure, &'static str, Option<String>),
)
    requires
        call_ensures(classify, (&error,), mapped),
    ensures
        error is Network ==> mapped.0 is Network && mapped.1@ == "network"@ && mapped.2 is None,
        error is Auth ==> mapped.0 is Auth && mapped.1@ == "auth"@ && mapped.2 is None,
        error is Timeout ==> mapped.0 is Timeout && mapped.1@ == "timeout"@,
        error is RateLimitedDaily ==> mapped.0 is QuotaExhausted && mapped.1@ == "quota"@,
        error is RateLimitedTransient ==> mapped.0 is RateLimited && mapped.1@ == "rate_limit"@,
        error is SafetyBlocked ==> mapped.0 is SafetyBlocked && mapped.1@ == "safety"@,
        error is EmptyTranscript ==> mapped.0 is Validation && mapped.1@ == "empty"@,
        error is Offline ==> mapped.0 is Network && mapped.1@ == "offline"@,
        error matches TranscriptionError::BadRequest(message) ==> mapped.0 is BadRequest
            && mapped.1@ == "bad_request"@ && opt_text(mapped.2) == Some(message@),
        error matches TranscriptionError::ModelUnavailable { model, detail } ==> mapped.0
            is ModelAccess && mapped.1@ == "model"@ && (detail is Some ==> opt_text(mapped.2)
            == opt_text(detail)) && (detail is None ==> opt_text(mapped.2) == Some(
            "model "@ + model@ + " not accessible"@,
        )),
{
}

/// After the key is let go of, the microphone stays open while the user is heard,
/// until a quarter of a second of quiet, and for a second and a half at most. Being
/// heard again starts the quiet anew.
pub proof fn quiet_is_waited_for(
    watch: TrailingWatch,
    now: Duration,
    level: Level,
    threshold: Level,
)
    ensures
        now.nanos >= watch.started.nanos + 1_500_000_000 ==> !watch.listens(now, level, threshold),
        now.nanos < watch.started.nanos + 1_500_000_000 && level.bits >= threshold.bits
            ==> watch.listens(now, level, threshold),
        now.nanos < watch.started.nanos + 1_500_000_000 && level.bits < threshold.bits ==> {
            &&& watch.quiet_since is None ==> watch.listens(now, level, threshold)
            &&& watch.quiet_since matches Some(since) ==> (watch.listens(now, level, threshold)
                <==> now.nanos < since.nanos + 250_000_000)
        },
        level.bits >= threshold.bits ==> watch.looked(now, level, threshold).quiet_since is None,
        level.bits < threshold.bits && watch.quiet_since is None ==> watch.looked(
            now,
            level,
            threshold,
        ).quiet_since == Some(now),
        level.bits < threshold.bits && watch.quiet_since is Some ==> watch.looked(
            now,
            level,
            threshold,
        ).quiet_since == watch.quiet_since,
        watch.looked(now, level, threshold).started == watch.started,
{
}

} // verus!
