//! The pill: the only thing shown while you dictate. It informs and nothing
//! else: it is never clicked and never takes the focus.

use vstd::prelude::*;

use crate::clock::{span, span_between, Duration};
use crate::levels::{Level, LEVEL_ZERO};
use crate::state_machine::{DictationFailure, DictationOutcome, DictationState, SilenceReason};
use crate::text::{decimal, decimal_of, occurs_in, push_all, stands_at, string_of};
use crate::timeout::SLOW_STATE_UI;

verus! {

/// What the pill shows: a projection of the coordinator's state.
#[derive(Debug, PartialEq, Eq)]
pub enum PillState {
    Hidden,
    IdleDot,
    Listening { locked: bool },
    Processing,
    Success { words: usize },
    /// Neutral informational chip (coaching hint, copied-to-clipboard, offline).
    Notice(String),
    /// Error styling and "saved to History" framing.
    Error(String),
}

pub enum PillStateView {
    Hidden,
    IdleDot,
    Listening { locked: bool },
    Processing,
    Success { words: usize },
    Notice(Seq<char>),
    Error(Seq<char>),
}

impl View for PillState {
    type V = PillStateView;

    open spec fn view(&self) -> PillStateView {
        match self {
            PillState::Hidden => PillStateView::Hidden,
            PillState::IdleDot => PillStateView::IdleDot,
            PillState::Listening { locked } => PillStateView::Listening { locked: *locked },
            PillState::Processing => PillStateView::Processing,
            PillState::Success { words } => PillStateView::Success { words: *words },
            PillState::Notice(message) => PillStateView::Notice(message@),
            PillState::Error(message) => PillStateView::Error(message@),
        }
    }
}

impl Default for PillState {
    fn default() -> (state: Self)
        ensures
            state@ is Hidden,
    {
        PillState::Hidden
    }
}

pub const LISTENING_WIDTH: u32 = 200;

pub const LOCKED_WIDTH: u32 = 268;

pub const PROCESSING_WIDTH: u32 = 132;

pub const PROCESSING_SLOW_WIDTH: u32 = 220;

/// Nanoseconds between two frames while listening.
pub const LISTENING_FRAME: u128 = 41_000_000;

/// Nanoseconds between two frames while processing.
pub const PROCESSING_FRAME: u128 = 83_000_000;

/// Seconds after which a held recording shows its timer.
pub const TIMER_AFTER: u128 = 10;

/// Words from which their count is reassuring rather than noise.
pub const COUNTED_WORDS: usize = 20;

/// The copy for each failure. It names what happened and what the user can do,
/// and says where the words are.
pub open spec fn failure_words(failure: DictationFailure) -> Seq<char> {
    match failure {
        DictationFailure::Audio => "Microphone didn't start — check Windows sound settings"@,
        DictationFailure::NoMicrophone => "No microphone found"@,
        DictationFailure::NoAudio => "Nothing was recorded"@,
        DictationFailure::Network => "Couldn't reach Gemini — saved to History, retry there"@,
        DictationFailure::Auth => "No usable API key — add one in Settings"@,
        DictationFailure::ModelAccess =>
            "Your key can't use this model — see Settings → Advanced"@,
        DictationFailure::BadRequest => "Gemini refused the request — saved to History"@,
        DictationFailure::RateLimited => "Rate limited — saved to History, retry in a moment"@,
        DictationFailure::QuotaExhausted => "Daily quota reached — saved to History"@,
        DictationFailure::Timeout => "Timed out — saved to History, retry there"@,
        DictationFailure::Validation => "Couldn't make out the words — saved to History"@,
        DictationFailure::SafetyBlocked =>
            "Gemini declined to transcribe this — saved to History"@,
        DictationFailure::Storage => "Couldn't write to disk — check free space"@,
    }
}

pub fn failure_copy(failure: DictationFailure) -> (copy: &'static str)
    ensures
        copy@ == failure_words(failure),
{
    match failure {
        DictationFailure::Audio => "Microphone didn't start — check Windows sound settings",
        DictationFailure::NoMicrophone => "No microphone found",
        DictationFailure::NoAudio => "Nothing was recorded",
        DictationFailure::Network => "Couldn't reach Gemini — saved to History, retry there",
        DictationFailure::Auth => "No usable API key — add one in Settings",
        DictationFailure::ModelAccess => "Your key can't use this model — see Settings → Advanced",
        DictationFailure::BadRequest => "Gemini refused the request — saved to History",
        DictationFailure::RateLimited => "Rate limited — saved to History, retry in a moment",
        DictationFailure::QuotaExhausted => "Daily quota reached — saved to History",
        DictationFailure::Timeout => "Timed out — saved to History, retry there",
        DictationFailure::Validation => "Couldn't make out the words — saved to History",
        DictationFailure::SafetyBlocked => "Gemini declined to transcribe this — saved to History",
        DictationFailure::Storage => "Couldn't write to disk — check free space",
    }
}

/// The pill between dictations.
pub open spec fn resting(show_idle_indicator: bool) -> PillStateView {
    if show_idle_indicator {
        PillStateView::IdleDot
    } else {
        PillStateView::Hidden
    }
}

/// What the pill says of an outcome.
pub open spec fn outcome_shown(outcome: DictationOutcome, silence: SilenceReason) -> PillStateView {
    match outcome {
        DictationOutcome::Inserted => PillStateView::Success { words: 0 },
        DictationOutcome::AwaitingChip => PillStateView::Notice("Copied — press Ctrl+V to paste"@),
        DictationOutcome::CopiedToClipboard => PillStateView::Notice(
            "Copied — press Ctrl+V to paste"@,
        ),
        DictationOutcome::HeldForSecureField => PillStateView::Notice(
            "Password field — saved to History only"@,
        ),
        DictationOutcome::QueuedForRetry => PillStateView::Notice(
            "Offline — saved, will send when you reconnect"@,
        ),
        DictationOutcome::Silent => match silence {
            SilenceReason::NoSpeech => PillStateView::Notice("Didn't catch that"@),
            SilenceReason::TooNoisy => PillStateView::Notice(
                "Too noisy to hear you — saved to History"@,
            ),
        },
    }
}

/// The projection. Warming already shows as listening: the key press must be
/// acknowledged before the microphone is open.
pub open spec fn projected(
    state: DictationState,
    silence: SilenceReason,
    show_idle_indicator: bool,
) -> PillStateView {
    match state {
        DictationState::Idle => resting(show_idle_indicator),
        DictationState::Warming => PillStateView::Listening { locked: false },
        DictationState::Recording { locked } => PillStateView::Listening { locked },
        DictationState::Finalizing => PillStateView::Processing,
        DictationState::Transcribing => PillStateView::Processing,
        DictationState::Inserting => PillStateView::Processing,
        DictationState::Cancelled => resting(show_idle_indicator),
        DictationState::Done(outcome) => outcome_shown(outcome, silence),
        DictationState::Failed(failure) => PillStateView::Error(failure_words(failure)),
    }
}

pub fn at_rest(show_idle_indicator: bool) -> (state: PillState)
    ensures
        state@ == resting(show_idle_indicator),
{
    if show_idle_indicator {
        PillState::IdleDot
    } else {
        PillState::Hidden
    }
}

fn show_outcome(outcome: DictationOutcome, silence: SilenceReason) -> (state: PillState)
    ensures
        state@ == outcome_shown(outcome, silence),
{
    let words = match outcome {
        DictationOutcome::Inserted => {
            return PillState::Success { words: 0 };
        },
        DictationOutcome::AwaitingChip => "Copied — press Ctrl+V to paste",
        DictationOutcome::CopiedToClipboard => "Copied — press Ctrl+V to paste",
        DictationOutcome::HeldForSecureField => "Password field — saved to History only",
        DictationOutcome::QueuedForRetry => "Offline — saved, will send when you reconnect",
        DictationOutcome::Silent => match silence {
            SilenceReason::NoSpeech => "Didn't catch that",
            SilenceReason::TooNoisy => "Too noisy to hear you — saved to History",
        },
    };
    PillState::Notice(words.to_owned())
}

/// A span as minutes and seconds.
pub open spec fn clock_text(seconds: nat) -> Seq<char> {
    let left = seconds % 60;
    decimal(seconds / 60) + seq![':'] + (if left < 10 {
        seq!['0'] + decimal(left)
    } else {
        decimal(left)
    })
}

fn text_of_clock(seconds: u128) -> (text: String)
    ensures
        text@ == clock_text(seconds as nat),
{
    let mut out = decimal_of(seconds / 60);
    out.push(':');
    let left: u128 = seconds % 60;
    if left < 10 {
        out.push('0');
    }
    let tail = decimal_of(left);
    push_all(&mut out, &tail);
    assert(out@ =~= clock_text(seconds as nat));
    string_of(&out)
}

/// What is drawn.
#[derive(Debug, PartialEq, Eq)]
pub enum Face {
    Nothing,
    Dot,
    /// The waveform, with the words and the timer before it.
    Listening { width: u32, hands_free: bool, timer: Option<String> },
    /// The waveform, with words behind it if it takes long.
    Processing { width: u32, note: Option<&'static str> },
    /// The tick, with words below it.
    Success { caption: Option<String> },
    Notice(String),
    Error(String),
}

pub enum FaceView {
    Nothing,
    Dot,
    Listening { width: u32, hands_free: bool, timer: Option<Seq<char>> },
    Processing { width: u32, note: Option<Seq<char>> },
    Success { caption: Option<Seq<char>> },
    Notice(Seq<char>),
    Error(Seq<char>),
}

impl View for Face {
    type V = FaceView;

    open spec fn view(&self) -> FaceView {
        match self {
            Face::Nothing => FaceView::Nothing,
            Face::Dot => FaceView::Dot,
            Face::Listening { width, hands_free, timer } => FaceView::Listening {
                width: *width,
                hands_free: *hands_free,
                timer: crate::text::opt_text(*timer),
            },
            Face::Processing { width, note } => FaceView::Processing {
                width: *width,
                note: match note {
                    Some(words) => Some(words@),
                    None => None,
                },
            },
            Face::Success { caption } => FaceView::Success {
                caption: crate::text::opt_text(*caption),
            },
            Face::Notice(message) => FaceView::Notice(message@),
            Face::Error(message) => FaceView::Error(message@),
        }
    }
}

/// What is drawn of a state, after so many seconds.
pub open spec fn drawn(state: PillStateView, seconds: nat, slow: bool) -> FaceView {
    match state {
        PillStateView::Hidden => FaceView::Nothing,
        PillStateView::IdleDot => FaceView::Dot,
        PillStateView::Listening { locked } => FaceView::Listening {
            width: if locked {
                LOCKED_WIDTH
            } else {
                LISTENING_WIDTH
            },
            hands_free: locked,
            timer: if locked || seconds >= TIMER_AFTER {
                Some(clock_text(seconds))
            } else {
                None
            },
        },
        PillStateView::Processing => FaceView::Processing {
            width: if slow {
                PROCESSING_SLOW_WIDTH
            } else {
                PROCESSING_WIDTH
            },
            note: if slow {
                Some("Still working…"@)
            } else {
                None
            },
        },
        PillStateView::Success { words } => FaceView::Success {
            caption: if words > COUNTED_WORDS {
                Some(decimal(words as nat) + " words"@)
            } else {
                None
            },
        },
        PillStateView::Notice(message) => FaceView::Notice(message),
        PillStateView::Error(message) => FaceView::Error(message),
    }
}

#[derive(Debug)]
pub struct PillView {
    pub state: PillState,
    pub level: Level,
    pub elapsed: Duration,
    /// The "Still working…" state.
    pub slow: bool,
    /// When the current recording began, for the hands-free timer.
    pub recording_since: Option<i128>,
    /// When the current transcription began, for the "Still working…" state.
    pub processing_since: Option<i128>,
}

pub struct PillModel {
    pub state: PillStateView,
    pub level: Level,
    pub elapsed: Duration,
    pub slow: bool,
    pub recording_since: Option<i128>,
    pub processing_since: Option<i128>,
}

impl View for PillView {
    type V = PillModel;

    open spec fn view(&self) -> PillModel {
        PillModel {
            state: self.state@,
            level: self.level,
            elapsed: self.elapsed,
            slow: self.slow,
            recording_since: self.recording_since,
            processing_since: self.processing_since,
        }
    }
}

impl PillModel {
    /// The whole seconds of the recording so far.
    pub open spec fn elapsed_at(self, now: int) -> int {
        match self.recording_since {
            Some(since) => span(since as int, now) / 1_000_000_000,
            None => 0,
        }
    }

    /// Whether the transcription takes long by now.
    pub open spec fn slow_at(self, now: int) -> bool {
        self.processing_since matches Some(since) && span(since as int, now) >= SLOW_STATE_UI
    }
}

impl Default for PillView {
    fn default() -> (pill: Self)
        ensures
            pill@ == (PillModel {
                state: PillStateView::Hidden,
                level: Level { bits: LEVEL_ZERO },
                elapsed: Duration { nanos: 0 },
                slow: false,
                recording_since: None,
                processing_since: None,
            }),
    {
        Self::new()
    }
}

impl PillView {
    pub fn new() -> (pill: Self)
        ensures
            pill@ == (PillModel {
                state: PillStateView::Hidden,
                level: Level { bits: LEVEL_ZERO },
                elapsed: Duration { nanos: 0 },
                slow: false,
                recording_since: None,
                processing_since: None,
            }),
    {
        PillView {
            state: PillState::Hidden,
            level: Level { bits: LEVEL_ZERO },
            elapsed: Duration { nanos: 0 },
            slow: false,
            recording_since: None,
            processing_since: None,
        }
    }

    /// Projects the coordinator's state onto the pill.
    pub fn project(
        state: DictationState,
        silence: SilenceReason,
        show_idle_indicator: bool,
    ) -> (shown: PillState)
        ensures
            shown@ == projected(state, silence, show_idle_indicator),
    {
        match state {
            DictationState::Idle => at_rest(show_idle_indicator),
            DictationState::Warming => PillState::Listening { locked: false },
            DictationState::Recording { locked } => PillState::Listening { locked },
            DictationState::Finalizing => PillState::Processing,
            DictationState::Transcribing => PillState::Processing,
            DictationState::Inserting => PillState::Processing,
            DictationState::Cancelled => at_rest(show_idle_indicator),
            DictationState::Done(outcome) => show_outcome(outcome, silence),
            DictationState::Failed(failure) => PillState::Error(failure_copy(failure).to_owned()),
        }
    }

    /// Reads the clocks again. Says whether something visible changed, so that
    /// the caller only repaints on a real difference.
    pub fn refresh_clock(&mut self, now: i128) -> (changed: bool)
        ensures
            final(self)@ == (PillModel {
                elapsed: final(self).elapsed,
                slow: old(self)@.slow_at(now as int),
                ..old(self)@
            }),
            final(self).elapsed.nanos == old(self)@.elapsed_at(now as int) * 1_000_000_000,
            changed == (final(self).elapsed != old(self).elapsed || final(self).slow != old(
                self).slow),
    {
        let elapsed = match self.recording_since {
            Some(since) => {
                let so_far = span_between(since, now);
                Duration { nanos: so_far.nanos / 1_000_000_000 * 1_000_000_000 }
            },
            None => Duration { nanos: 0 },
        };
        let slow = match self.processing_since {
            Some(since) => span_between(since, now).nanos >= SLOW_STATE_UI,
            None => false,
        };
        let changed = elapsed.nanos != self.elapsed.nanos || slow != self.slow;
        self.elapsed = elapsed;
        self.slow = slow;
        changed
    }

    /// The span between two frames; none while nothing moves.
    pub fn frame_interval(&self) -> (interval: Option<Duration>)
        ensures
            interval == (match self@.state {
                PillStateView::Listening { .. } => Some(Duration { nanos: LISTENING_FRAME }),
                PillStateView::Processing => Some(Duration { nanos: PROCESSING_FRAME }),
                _ => None,
            }),
    {
        match self.state {
            PillState::Listening { .. } => Some(Duration { nanos: LISTENING_FRAME }),
            PillState::Processing => Some(Duration { nanos: PROCESSING_FRAME }),
            _ => None,
        }
    }

    /// Whether the bars move now: never with reduced motion, and otherwise no
    /// sooner than a frame after the last time.
    pub fn frame_due(&self, reduce_motion: bool, last_frame: Option<i128>, now: i128) -> (due: bool)
        ensures
            due == (!reduce_motion && match self@.state {
                PillStateView::Listening { .. } => last_frame matches Some(last) ==> span(
                    last as int,
                    now as int,
                ) >= LISTENING_FRAME,
                PillStateView::Processing => last_frame matches Some(last) ==> span(
                    last as int,
                    now as int,
                ) >= PROCESSING_FRAME,
                _ => false,
            }),
    {
        match self.frame_interval() {
            Some(interval) => !reduce_motion && match last_frame {
                Some(last) => span_between(last, now).nanos >= interval.nanos,
                None => true,
            },
            None => false,
        }
    }

    pub fn timer_text(&self) -> (text: String)
        ensures
            text@ == clock_text((self.elapsed.nanos as int / 1_000_000_000) as nat),
    {
        text_of_clock(self.elapsed.as_secs())
    }

    /// What to draw.
    pub fn face(&self) -> (face: Face)
        ensures
            face@ == drawn(
                self@.state,
                (self.elapsed.nanos as int / 1_000_000_000) as nat,
                self.slow,
            ),
    {
        match &self.state {
            PillState::Hidden => Face::Nothing,
            PillState::IdleDot => Face::Dot,
            PillState::Listening { locked } => Face::Listening {
                width: if *locked {
                    LOCKED_WIDTH
                } else {
                    LISTENING_WIDTH
                },
                hands_free: *locked,
                timer: if *locked || self.elapsed.as_secs() >= TIMER_AFTER {
                    Some(self.timer_text())
                } else {
                    None
                },
            },
            PillState::Processing => if self.slow {
                Face::Processing { width: PROCESSING_SLOW_WIDTH, note: Some("Still working…") }
            } else {
                Face::Processing { width: PROCESSING_WIDTH, note: None }
            },
            PillState::Success { words } => {
                if *words > COUNTED_WORDS {
                    let mut caption = string_of(&decimal_of(*words as u128));
                    caption.append(" words");
                    Face::Success { caption: Some(caption) }
                } else {
                    Face::Success { caption: None }
                }
            },
            PillState::Notice(message) => Face::Notice(message.clone()),
            PillState::Error(message) => Face::Error(message.clone()),
        }
    }
}

/// A live session is never shown as rest, and rest is shown for nothing but rest.
pub proof fn a_live_session_is_always_visible(state: DictationState, silence: SilenceReason)
    ensures
        projected(state, silence, false) is Hidden <==> state is Idle || state is Cancelled,
{
}

/// Error styling is for failures alone.
pub proof fn only_failures_look_like_errors(
    state: DictationState,
    silence: SilenceReason,
    show_idle_indicator: bool,
)
    ensures
        projected(state, silence, show_idle_indicator) is Error <==> state is Failed,
{
}

/// The setting changes nothing but the pill at rest.
pub proof fn the_indicator_is_only_for_rest(state: DictationState, silence: SilenceReason)
    ensures
        projected(state, silence, true) != projected(state, silence, false) ==> state is Idle
            || state is Cancelled,
{
}

/// A failure whose words are kept says where they are.
pub proof fn kept_words_are_said_to_be_in_history(failure: DictationFailure)
    requires
        failure is Network || failure is BadRequest || failure is RateLimited
            || failure is QuotaExhausted || failure is Timeout || failure is Validation
            || failure is SafetyBlocked,
    ensures
        occurs_in("History"@, failure_words(failure)),
{
    reveal_strlit("History");
    let words = failure_words(failure);
    match failure {
        DictationFailure::Network => {
            reveal_strlit("Couldn't reach Gemini — saved to History, retry there");
            assert(words.subrange(33, 40) =~= "History"@);
            assert(stands_at(words, "History"@, 33));
        },
        DictationFailure::BadRequest => {
            reveal_strlit("Gemini refused the request — saved to History");
            assert(words.subrange(38, 45) =~= "History"@);
            assert(stands_at(words, "History"@, 38));
        },
        DictationFailure::RateLimited => {
            reveal_strlit("Rate limited — saved to History, retry in a moment");
            assert(words.subrange(24, 31) =~= "History"@);
            assert(stands_at(words, "History"@, 24));
        },
        DictationFailure::QuotaExhausted => {
            reveal_strlit("Daily quota reached — saved to History");
            assert(words.subrange(31, 38) =~= "History"@);
            assert(stands_at(words, "History"@, 31));
        },
        DictationFailure::Timeout => {
            reveal_strlit("Timed out — saved to History, retry there");
            assert(words.subrange(21, 28) =~= "History"@);
            assert(stands_at(words, "History"@, 21));
        },
        DictationFailure::Validation => {
            reveal_strlit("Couldn't make out the words — saved to History");
            assert(words.subrange(39, 46) =~= "History"@);
            assert(stands_at(words, "History"@, 39));
        },
        DictationFailure::SafetyBlocked => {
            reveal_strlit("Gemini declined to transcribe this — saved to History");
            assert(words.subrange(46, 53) =~= "History"@);
            assert(stands_at(words, "History"@, 46));
        },
        _ => {},
    }
}

/// The pill shows each state as what it is to the user: listening from the moment
/// the key is down, working from the moment it is let go of, and then how it ended.
pub proof fn each_state_is_shown_as_what_it_is(
    state: DictationState,
    silence: SilenceReason,
    show_idle_indicator: bool,
)
    ensures
        ({
            let shown = projected(state, silence, show_idle_indicator);
            &&& shown == (PillStateView::Listening { locked: true }) <==> state == (
            DictationState::Recording { locked: true })
            &&& shown == (PillStateView::Listening { locked: false }) <==> state is Warming || state
                == (DictationState::Recording { locked: false })
            &&& shown is Processing <==> state is Finalizing || state is Transcribing || state
                is Inserting
            &&& shown is Success <==> state == DictationState::Done(DictationOutcome::Inserted)
            &&& shown is Notice <==> state is Done && state != DictationState::Done(
                DictationOutcome::Inserted,
            )
            &&& state matches DictationState::Failed(failure) ==> shown == PillStateView::Error(
                failure_words(failure),
            )
            &&& shown is IdleDot <==> (state is Idle || state is Cancelled) && show_idle_indicator
        }),
{
}

/// What is said of an ending says where the words are.
pub proof fn an_ending_says_where_the_words_are(silence: SilenceReason)
    ensures
        outcome_shown(DictationOutcome::AwaitingChip, silence) == PillStateView::Notice(
            "Copied — press Ctrl+V to paste"@,
        ),
        outcome_shown(DictationOutcome::CopiedToClipboard, silence) == PillStateView::Notice(
            "Copied — press Ctrl+V to paste"@,
        ),
        outcome_shown(DictationOutcome::HeldForSecureField, silence) == PillStateView::Notice(
            "Password field — saved to History only"@,
        ),
        outcome_shown(DictationOutcome::QueuedForRetry, silence) == PillStateView::Notice(
            "Offline — saved, will send when you reconnect"@,
        ),
        silence is NoSpeech ==> outcome_shown(DictationOutcome::Silent, silence)
            == PillStateView::Notice("Didn't catch that"@),
        silence is TooNoisy ==> outcome_shown(DictationOutcome::Silent, silence)
            == PillStateView::Notice("Too noisy to hear you — saved to History"@),
{
}

/// A hands-free recording always shows its time, a held one from ten seconds on;
/// work that takes long is said to, and the words are counted from more than
/// twenty on.
pub proof fn what_takes_long_is_shown(seconds: nat, slow: bool, locked: bool, words: usize)
    ensures
        drawn(PillStateView::Listening { locked }, seconds, slow) matches FaceView::Listening {
            hands_free,
            timer,
            ..
        } && hands_free == locked && (timer is Some <==> locked || seconds >= 10) && (timer is Some
            ==> timer->0 == clock_text(seconds)),
        drawn(PillStateView::Processing, seconds, slow) matches FaceView::Processing { note, .. }
            && (note is Some <==> slow) && (slow ==> note->0 == "Still working…"@),
        drawn(PillStateView::Success { words }, seconds, slow) matches FaceView::Success { caption }
            && (caption is Some <==> words > 20) && (words > 20 ==> caption->0 == decimal(
            words as nat,
        ) + " words"@),
        drawn(PillStateView::Hidden, seconds, slow) is Nothing,
        drawn(PillStateView::IdleDot, seconds, slow) is Dot,
{
}

/// A message is drawn as it is.
pub proof fn a_message_is_drawn_as_it_is(message: Seq<char>, seconds: nat, slow: bool)
    ensures
        drawn(PillStateView::Notice(message), seconds, slow) == FaceView::Notice(message),
        drawn(PillStateView::Error(message), seconds, slow) == FaceView::Error(message),
{
}

/// The time is minutes, a colon and two digits of seconds.
pub proof fn the_time_has_two_digits_of_seconds(minutes: nat, seconds: nat)
    requires
        seconds < 60,
    ensures
        clock_text(minutes * 60 + seconds) == decimal(minutes) + seq![
            ':',
            (seconds / 10 + 48) as char,
            (seconds % 10 + 48) as char,
        ],
{
    let total = minutes * 60 + seconds;
    assert(total / 60 == minutes && total % 60 == seconds) by (nonlinear_arith)
        requires
            total == minutes * 60 + seconds,
            seconds < 60,
    ;
    if seconds >= 10 {
        assert(seconds / 10 < 10);
        assert(decimal(seconds / 10) =~= seq![(seconds / 10 + 48) as char]);
        assert(decimal(seconds) =~= seq![
            (seconds / 10 + 48) as char,
            (seconds % 10 + 48) as char,
        ]);
    } else {
        assert(decimal(seconds) =~= seq![(seconds + 48) as char]);
    }
    assert(clock_text(total) =~= decimal(minutes) + seq![
        ':',
        (seconds / 10 + 48) as char,
        (seconds % 10 + 48) as char,
    ]);
}

/// The clock counts whole seconds from the start of the recording, and the work is
/// slow from three seconds on.
pub proof fn the_clocks_count_from_their_start(pill: PillModel, now: int)
    ensures
        pill.recording_since is None ==> pill.elapsed_at(now) == 0,
        pill.recording_since matches Some(since) ==> (since <= now ==> pill.elapsed_at(now)
            * 1_000_000_000 <= now - since < (pill.elapsed_at(now) + 1) * 1_000_000_000),
        pill.processing_since is None ==> !pill.slow_at(now),
        pill.processing_since matches Some(since) ==> (pill.slow_at(now) <==> now - since
            >= 3_000_000_000),
{
}

/// The bars move only while there is something to follow, and never with reduced
/// motion.
pub proof fn the_bars_move_only_while_something_does(
    pill: PillView,
    reduce_motion: bool,
    last_frame: Option<i128>,
    now: i128,
    due: bool,
)
    requires
        call_ensures(PillView::frame_due, (&pill, reduce_motion, last_frame, now), due),
    ensures
        reduce_motion ==> !due,
        !(pill@.state is Listening) && !(pill@.state is Processing) ==> !due,
        !reduce_motion && (pill@.state is Listening || pill@.state is Processing) && last_frame
            is None ==> due,
        !reduce_motion && pill@.state is Listening ==> (last_frame matches Some(last) ==> (due
            <==> now - last >= 41_000_000)),
        !reduce_motion && pill@.state is Processing ==> (last_frame matches Some(last) ==> (due
            <==> now - last >= 83_000_000)),
{
}

} // verus!
