//! The session lifecycle.

use vstd::prelude::*;

verus! {

/// Why a dictation session ended unsuccessfully.
#[derive(Debug, Clone, Copy, PartialEq, Eq, Structural)]
pub enum DictationFailure {
    /// Audio engine failed to start or died.
    Audio,
    /// No input device exists at all.
    NoMicrophone,
    /// Zero buffers captured; never shown as an empty transcript.
    NoAudio,
    /// Transport-level failure after the silent retry.
    Network,
    /// The key is invalid or revoked.
    Auth,
    /// The key is fine, the model is gated or renamed.
    ModelAccess,
    /// Permanent request failure.
    BadRequest,
    /// Per-minute throttle; clears on its own, retryable from History.
    RateLimited,
    /// A hard (daily) quota.
    QuotaExhausted,
    /// Deadline exceeded.
    Timeout,
    /// The validation gate failed even after the verbatim retry.
    Validation,
    /// The service refused on safety grounds.
    SafetyBlocked,
    /// Disk write failure.
    Storage,
}

/// Terminal outcome of a successful-enough session.
#[derive(Debug, Clone, Copy, PartialEq, Eq, Structural)]
pub enum DictationOutcome {
    /// Text landed at the cursor.
    Inserted,
    /// Focus changed mid-flight; the user was offered a chip instead of a blind
    /// paste.
    AwaitingChip,
    /// Text left on the clipboard with a visible hint.
    CopiedToClipboard,
    /// A password field was focused at insert time; text lives in History only.
    HeldForSecureField,
    /// Offline or transient failure; the recording is queued for auto-retry.
    QueuedForRetry,
    /// Silence-only audio, kept in History without error theatrics.
    Silent,
}

/// A single dictation session's lifecycle.
#[derive(Debug, Clone, Copy, PartialEq, Eq, Structural)]
pub enum DictationState {
    Idle,
    /// Hotkey went down: session folder created, audio engine starting.
    Warming,
    Recording { locked: bool },
    /// Key released or stop pressed: engine stopping, audio flushed.
    Finalizing,
    Transcribing,
    Inserting,
    Done(DictationOutcome),
    Cancelled,
    Failed(DictationFailure),
}

impl Default for DictationState {
    fn default() -> (state: Self)
        ensures
            state == DictationState::Idle,
    {
        DictationState::Idle
    }
}

impl DictationState {
    pub open spec fn terminal(self) -> bool {
        self is Done || self is Cancelled || self is Failed
    }

    pub fn is_terminal(self) -> (terminal: bool)
        ensures
            terminal == self.terminal(),
    {
        matches!(self, DictationState::Done(_) | DictationState::Cancelled | DictationState::Failed(_))
    }

    pub fn is_recording(self) -> (recording: bool)
        ensures
            recording == (self is Recording),
    {
        matches!(self, DictationState::Recording { .. })
    }

    /// How far along its life a session is.
    pub open spec fn stage(self) -> nat {
        match self {
            DictationState::Idle => 0,
            DictationState::Warming => 1,
            DictationState::Recording { .. } => 2,
            DictationState::Finalizing => 3,
            DictationState::Transcribing => 4,
            DictationState::Inserting => 5,
            _ => 6,
        }
    }
}

#[derive(Debug, Clone, Copy, PartialEq, Eq, Structural)]
pub enum DictationEvent {
    HotkeyBegin,
    LockIn,
    Finalize,
    Cancel,
    /// A non-modifier key was typed within the interruption window.
    AbortAccidental,
    EngineStarted,
    EngineFailed(DictationFailure),
    AudioFinalized,
    NoAudioCaptured,
    SilenceOnly,
    TranscriptReady,
    TranscriptFailed(DictationFailure),
    QueuedForRetry,
    Inserted,
    InsertionFellBackToClipboard,
    FrontmostChangedAwaitingChip,
    InsertionBlockedSecure,
}

impl DictationEvent {
    /// The user backing out: Esc, or an accidental chord.
    pub open spec fn backs_out(self) -> bool {
        self is Cancel || self is AbortAccidental
    }
}

/// Where `event` takes a session in `state`; `None` where it is not valid.
pub open spec fn next_state(state: DictationState, event: DictationEvent) -> Option<
    DictationState,
> {
    match state {
        DictationState::Idle => if event is HotkeyBegin {
            Some(DictationState::Warming)
        } else {
            None
        },
        DictationState::Warming => match event {
            DictationEvent::EngineStarted => Some(DictationState::Recording { locked: false }),
            DictationEvent::EngineFailed(failure) => Some(DictationState::Failed(failure)),
            DictationEvent::Finalize => Some(DictationState::Finalizing),
            _ => if event.backs_out() {
                Some(DictationState::Cancelled)
            } else {
                None
            },
        },
        DictationState::Recording { locked } => match event {
            DictationEvent::LockIn => if locked {
                None
            } else {
                Some(DictationState::Recording { locked: true })
            },
            DictationEvent::Finalize => Some(DictationState::Finalizing),
            DictationEvent::EngineFailed(_) => Some(DictationState::Finalizing),
            _ => if event.backs_out() {
                Some(DictationState::Cancelled)
            } else {
                None
            },
        },
        DictationState::Finalizing => match event {
            DictationEvent::AudioFinalized => Some(DictationState::Transcribing),
            DictationEvent::NoAudioCaptured => Some(
                DictationState::Failed(DictationFailure::NoAudio),
            ),
            DictationEvent::SilenceOnly => Some(DictationState::Done(DictationOutcome::Silent)),
            DictationEvent::Cancel => Some(DictationState::Cancelled),
            _ => None,
        },
        DictationState::Transcribing => match event {
            DictationEvent::TranscriptReady => Some(DictationState::Inserting),
            DictationEvent::SilenceOnly => Some(DictationState::Done(DictationOutcome::Silent)),
            DictationEvent::TranscriptFailed(failure) => Some(DictationState::Failed(failure)),
            DictationEvent::QueuedForRetry => Some(
                DictationState::Done(DictationOutcome::QueuedForRetry),
            ),
            DictationEvent::Cancel => Some(DictationState::Cancelled),
            _ => None,
        },
        DictationState::Inserting => match event {
            DictationEvent::Inserted => Some(DictationState::Done(DictationOutcome::Inserted)),
            DictationEvent::InsertionFellBackToClipboard => Some(
                DictationState::Done(DictationOutcome::CopiedToClipboard),
            ),
            DictationEvent::FrontmostChangedAwaitingChip => Some(
                DictationState::Done(DictationOutcome::AwaitingChip),
            ),
            DictationEvent::InsertionBlockedSecure => Some(
                DictationState::Done(DictationOutcome::HeldForSecureField),
            ),
            _ => None,
        },
        _ => None,
    }
}

/// The only place session-lifecycle rules live. Returns `None` for events that
/// are ignored in the given state (stale completions, double events).
pub fn transition(state: DictationState, event: DictationEvent) -> (next: Option<DictationState>)
    ensures
        next == next_state(state, event),
{
    match (state, event) {
        (DictationState::Idle, DictationEvent::HotkeyBegin) => Some(DictationState::Warming),
        (DictationState::Warming, DictationEvent::EngineStarted) => Some(
            DictationState::Recording { locked: false },
        ),
        (DictationState::Warming, DictationEvent::EngineFailed(failure)) => Some(
            DictationState::Failed(failure),
        ),
        (DictationState::Warming, DictationEvent::Cancel | DictationEvent::AbortAccidental) => Some(
            DictationState::Cancelled,
        ),
        // Released before the engine reported started: still a real dictation,
        // finalized with whatever was captured.
        (DictationState::Warming, DictationEvent::Finalize) => Some(DictationState::Finalizing),
        (DictationState::Recording { locked: false }, DictationEvent::LockIn) => Some(
            DictationState::Recording { locked: true },
        ),
        (DictationState::Recording { .. }, DictationEvent::Finalize) => Some(
            DictationState::Finalizing,
        ),
        (
            DictationState::Recording { .. },
            DictationEvent::Cancel | DictationEvent::AbortAccidental,
        ) => Some(DictationState::Cancelled),
        // Engine death mid-recording: whatever was written is preserved, and the
        // finalize path decides what becomes of it.
        (DictationState::Recording { .. }, DictationEvent::EngineFailed(_)) => Some(
            DictationState::Finalizing,
        ),
        (DictationState::Finalizing, DictationEvent::AudioFinalized) => Some(
            DictationState::Transcribing,
        ),
        (DictationState::Finalizing, DictationEvent::NoAudioCaptured) => Some(
            DictationState::Failed(DictationFailure::NoAudio),
        ),
        (DictationState::Finalizing, DictationEvent::SilenceOnly) => Some(
            DictationState::Done(DictationOutcome::Silent),
        ),
        (DictationState::Finalizing, DictationEvent::Cancel) => Some(DictationState::Cancelled),
        (DictationState::Transcribing, DictationEvent::TranscriptReady) => Some(
            DictationState::Inserting,
        ),
        // An empty transcript of a very short clip is silence, not an error.
        (DictationState::Transcribing, DictationEvent::SilenceOnly) => Some(
            DictationState::Done(DictationOutcome::Silent),
        ),
        (DictationState::Transcribing, DictationEvent::TranscriptFailed(failure)) => Some(
            DictationState::Failed(failure),
        ),
        (DictationState::Transcribing, DictationEvent::QueuedForRetry) => Some(
            DictationState::Done(DictationOutcome::QueuedForRetry),
        ),
        (DictationState::Transcribing, DictationEvent::Cancel) => Some(DictationState::Cancelled),
        // No cancel while inserting: the text exists, History has it regardless.
        (DictationState::Inserting, DictationEvent::Inserted) => Some(
            DictationState::Done(DictationOutcome::Inserted),
        ),
        (DictationState::Inserting, DictationEvent::InsertionFellBackToClipboard) => Some(
            DictationState::Done(DictationOutcome::CopiedToClipboard),
        ),
        (DictationState::Inserting, DictationEvent::FrontmostChangedAwaitingChip) => Some(
            DictationState::Done(DictationOutcome::AwaitingChip),
        ),
        (DictationState::Inserting, DictationEvent::InsertionBlockedSecure) => Some(
            DictationState::Done(DictationOutcome::HeldForSecureField),
        ),
        _ => None,
    }
}

/// Where a whole run of events leaves a session, ignored events leaving it be.
pub open spec fn after(state: DictationState, events: Seq<DictationEvent>) -> DictationState
    decreases events.len(),
{
    if events.len() == 0 {
        state
    } else {
        let before = after(state, events.drop_last());
        match next_state(before, events.last()) {
            Some(next) => next,
            None => before,
        }
    }
}

/// A session that has ended stays as it ended: a late completion is dropped.
pub proof fn terminal_states_are_final(state: DictationState, event: DictationEvent)
    requires
        state.terminal(),
    ensures
        next_state(state, event) is None,
{
}

/// No run of events, however long or stale, changes how a session ended.
pub proof fn an_ended_session_never_changes(state: DictationState, events: Seq<DictationEvent>)
    requires
        state.terminal(),
    ensures
        after(state, events) == state,
    decreases events.len(),
{
    if events.len() > 0 {
        an_ended_session_never_changes(state, events.drop_last());
    }
}

/// A session only ever moves forward. The one event that keeps its stage is
/// locking an unlocked recording.
pub proof fn a_session_never_goes_back(state: DictationState, event: DictationEvent)
    ensures
        next_state(state, event) matches Some(next) ==> next.stage() > state.stage() || (state == (
        DictationState::Recording { locked: false }) && next == (DictationState::Recording {
            locked: true,
        })),
{
}

/// A run that ends inserted has been transcribed: the only step into inserting
/// is a transcript being ready.
pub proof fn only_a_transcript_is_inserted(state: DictationState, event: DictationEvent)
    ensures
        next_state(state, event) == Some(DictationState::Inserting) ==> state
            == DictationState::Transcribing && event == DictationEvent::TranscriptReady,
{
}

/// While the text is being inserted, backing out does nothing.
pub proof fn inserting_cannot_be_backed_out_of(event: DictationEvent)
    requires
        event.backs_out(),
    ensures
        next_state(DictationState::Inserting, event) is None,
{
}

/// Until there is something to insert, Esc ends a started session.
pub proof fn esc_cancels_any_session_without_text(state: DictationState)
    requires
        1 <= state.stage() <= 4,
    ensures
        next_state(state, DictationEvent::Cancel) == Some(DictationState::Cancelled),
{
}

/// Why a session ended with no speech.
#[derive(Debug, Clone, Copy, PartialEq, Eq, Structural)]
pub enum SilenceReason {
    /// Genuinely quiet: a held key in a quiet room, or a muted mic.
    NoSpeech,
    /// A loud room with nothing rising above it. The recording is kept, because
    /// a high absolute peak means the judgement could be wrong.
    TooNoisy,
}

impl Default for SilenceReason {
    fn default() -> (reason: Self)
        ensures
            reason == SilenceReason::NoSpeech,
    {
        SilenceReason::NoSpeech
    }
}

/// Each step of the happy path has one way in: a session is warmed by the key,
/// records once the engine runs, is locked while it records, is finalized when the
/// key is let go of or the engine dies, is sent once its audio is complete, and is
/// inserted once its words are there.
pub proof fn every_stage_has_its_way_in(
    state: DictationState,
    event: DictationEvent,
    next: Option<DictationState>,
)
    requires
        call_ensures(transition, (state, event), next),
    ensures
        next == Some(DictationState::Warming) <==> state is Idle && event is HotkeyBegin,
        next == Some(DictationState::Recording { locked: false }) <==> state is Warming && event
            is EngineStarted,
        next == Some(DictationState::Recording { locked: true }) <==> state == (
        DictationState::Recording { locked: false }) && event is LockIn,
        next == Some(DictationState::Finalizing) <==> ((state is Warming || state is Recording)
            && event is Finalize) || (state is Recording && event is EngineFailed),
        next == Some(DictationState::Transcribing) <==> state is Finalizing && event
            is AudioFinalized,
        next == Some(DictationState::Inserting) <==> state is Transcribing && event
            is TranscriptReady,
        next != Some(DictationState::Idle),
{
}

/// Each ending has its reason: what became of the text, a recording without
/// speech, a wait for the connection, the user, or the failure itself.
pub proof fn every_ending_has_its_reason(
    state: DictationState,
    event: DictationEvent,
    next: Option<DictationState>,
    failure: DictationFailure,
)
    requires
        call_ensures(transition, (state, event), next),
    ensures
        next == Some(DictationState::Done(DictationOutcome::Inserted)) <==> state is Inserting
            && event is Inserted,
        next == Some(DictationState::Done(DictationOutcome::CopiedToClipboard)) <==> state
            is Inserting && event is InsertionFellBackToClipboard,
        next == Some(DictationState::Done(DictationOutcome::AwaitingChip)) <==> state is Inserting
            && event is FrontmostChangedAwaitingChip,
        next == Some(DictationState::Done(DictationOutcome::HeldForSecureField)) <==> state
            is Inserting && event is InsertionBlockedSecure,
        next == Some(DictationState::Done(DictationOutcome::QueuedForRetry)) <==> state
            is Transcribing && event is QueuedForRetry,
        next == Some(DictationState::Done(DictationOutcome::Silent)) <==> (state is Finalizing
            || state is Transcribing) && event is SilenceOnly,
        next == Some(DictationState::Cancelled) <==> (event is Cancel && (state is Warming || state
            is Recording || state is Finalizing || state is Transcribing)) || (event
            is AbortAccidental && (state is Warming || state is Recording)),
        next == Some(DictationState::Failed(failure)) <==> (state is Warming && event
            == DictationEvent::EngineFailed(failure)) || (state is Transcribing && event
            == DictationEvent::TranscriptFailed(failure)) || (state is Finalizing && event
            is NoAudioCaptured && failure is NoAudio),
{
}

/// A session has ended exactly if it is done, cancelled or failed.
pub proof fn a_session_has_ended_or_goes_on(state: DictationState, ended: bool, recording: bool)
    requires
        call_ensures(DictationState::is_terminal, (state,), ended),
        call_ensures(DictationState::is_recording, (state,), recording),
    ensures
        ended <==> !(state is Idle || state is Warming || state is Recording || state is Finalizing
            || state is Transcribing || state is Inserting),
        recording <==> state is Recording,
{
}

} // verus!
