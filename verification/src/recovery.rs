//! Getting words back: the offline queue and launch-time crash recovery.
//!
//! Neither of these ever inserts anything. By the time a queued dictation
//! drains, the focus that produced it is long gone, so the text lands in History
//! and the user decides where it goes.

use vstd::prelude::*;

use crate::clock::Duration;
use crate::file_layout::{estimated_duration_of_wav, wav_length};
use crate::gemini::{ErrorView, TranscriptionError};
use crate::meta::{MetaView, SessionMeta, SessionStatus};
use crate::transcription::{ContextView, DictationContext, ResultView, TranscriptionResult};

verus! {

/// Nanoseconds assumed for a recovered session whose duration was never written.
pub const UNKNOWN_DURATION: u128 = 60_000_000_000;

/// How often, in nanoseconds, connectivity is looked at while dictations are
/// queued.
pub const CONNECTIVITY_POLL: u128 = 5_000_000_000;

pub const RECOVERED_NOTICE: &'static str = "Recovered your last dictation — it's in History";

/// User-facing outcome of a manual Retry: a silent no-op reads as broken.
#[derive(Debug, Clone, Copy, PartialEq, Eq, Structural)]
pub enum RetryOutcome {
    Recovered,
    StillOffline,
    Blocked,
    Failed,
    AlreadyDone,
    Busy,
}

/// What sending one session again came to.
#[derive(Debug, PartialEq, Eq)]
pub enum ProcessResult {
    Recovered,
    StillOffline,
    Blocked(TranscriptionError),
    Failed,
    Skipped,
}

pub enum ProcessView {
    Recovered,
    StillOffline,
    Blocked(ErrorView),
    Failed,
    Skipped,
}

impl View for ProcessResult {
    type V = ProcessView;

    open spec fn view(&self) -> ProcessView {
        match self {
            ProcessResult::Recovered => ProcessView::Recovered,
            ProcessResult::StillOffline => ProcessView::StillOffline,
            ProcessResult::Blocked(error) => ProcessView::Blocked(error@),
            ProcessResult::Failed => ProcessView::Failed,
            ProcessResult::Skipped => ProcessView::Skipped,
        }
    }
}

/// How long a session's audio is taken to be: what its record says, else what
/// its file holds, else a bounded guess.
pub open spec fn length_of(meta: MetaView, audio_bytes: Option<u64>) -> Duration {
    match meta.audio_duration {
        Some(length) => length,
        None => match audio_bytes {
            Some(bytes) => match wav_length(bytes) {
                Some(length) => length,
                None => Duration { nanos: UNKNOWN_DURATION },
            },
            None => Duration { nanos: UNKNOWN_DURATION },
        },
    }
}

/// Crashed sessions never wrote a duration: estimated from the file, so that the
/// network deadline scales with the recording.
pub fn session_duration(meta: &SessionMeta, audio_bytes: Option<u64>) -> (length: Duration)
    ensures
        length == length_of(meta@, audio_bytes),
{
    match meta.audio_duration {
        Some(length) => length,
        None => match audio_bytes {
            Some(bytes) => match estimated_duration_of_wav(bytes) {
                Some(length) => length,
                None => Duration { nanos: UNKNOWN_DURATION },
            },
            None => Duration { nanos: UNKNOWN_DURATION },
        },
    }
}

/// The context a session is sent again with: the process is long gone.
pub open spec fn context_of(meta: MetaView) -> ContextView {
    ContextView {
        target_app_exe: meta.target_app_exe,
        target_app_name: meta.target_app_name,
        target_pid: None,
    }
}

fn retry_context(meta: &SessionMeta) -> (context: DictationContext)
    ensures
        context@ == context_of(meta@),
{
    DictationContext {
        target_app_exe: meta.target_app_exe.clone(),
        target_app_name: meta.target_app_name.clone(),
        target_pid: None,
    }
}

/// What to do with a session whose turn it is.
#[derive(Debug)]
pub enum Plan {
    /// Nothing to send. The record, if there is one, replaces the session's.
    Settled { record: Option<SessionMeta>, result: ProcessResult },
    /// Send the audio and take the reply to `finish_process`.
    Send { meta: SessionMeta, duration: Duration, context: DictationContext },
}

pub enum PlanView {
    Settled { record: Option<MetaView>, result: ProcessView },
    Send { meta: MetaView, duration: Duration, context: ContextView },
}

pub open spec fn opt_meta(meta: Option<SessionMeta>) -> Option<MetaView> {
    match meta {
        Some(meta) => Some(meta@),
        None => None,
    }
}

impl View for Plan {
    type V = PlanView;

    open spec fn view(&self) -> PlanView {
        match self {
            Plan::Settled { record, result } => PlanView::Settled {
                record: opt_meta(*record),
                result: result@,
            },
            Plan::Send { meta, duration, context } => PlanView::Send {
                meta: meta@,
                duration: *duration,
                context: context@,
            },
        }
    }
}

/// A path that already ended well.
pub open spec fn finished(status: SessionStatus) -> bool {
    ||| status is AwaitingChip
    ||| status is Inserted
    ||| status is Recovered
}

/// The record of a session whose words are back. They were never put on the
/// clipboard, so no chip may promise "Ready to paste".
pub open spec fn recovered_meta(meta: MetaView, words: ResultView) -> MetaView {
    MetaView {
        raw_transcript: Some(words.raw_transcript),
        cleaned_transcript: Some(words.cleaned_transcript),
        model_id: Some(words.model_id),
        status: SessionStatus::Recovered,
        ..meta
    }
}

/// What to do with a queued session, given its record as it is on disk and the
/// size of its audio, if it is there.
pub open spec fn plan(meta: Option<MetaView>, audio_bytes: Option<u64>) -> PlanView {
    match meta {
        None => PlanView::Settled { record: None, result: ProcessView::Skipped },
        Some(meta) => if finished(meta.status) {
            PlanView::Settled { record: None, result: ProcessView::Skipped }
        } else if meta.raw_transcript is Some {
            PlanView::Settled {
                record: Some(
                    MetaView { status: SessionStatus::Recovered, error_code: None, ..meta },
                ),
                result: ProcessView::Recovered,
            }
        } else if audio_bytes is None {
            PlanView::Settled {
                record: Some(
                    MetaView {
                        status: SessionStatus::Failed,
                        error_code: Some("audio_purged"@),
                        ..meta
                    },
                ),
                result: ProcessView::Failed,
            }
        } else {
            PlanView::Send {
                meta,
                duration: length_of(meta, audio_bytes),
                context: context_of(meta),
            }
        },
    }
}

/// An error that the next edge of connectivity may clear.
pub open spec fn passes(error: ErrorView) -> bool {
    ||| error is Offline
    ||| error is Network
    ||| error is Timeout
    ||| error is RateLimitedTransient
}

/// An account-level wall: not this session's fault.
pub open spec fn walls(error: ErrorView) -> bool {
    error is Auth || error is RateLimitedDaily
}

/// What the reply makes of a session that was sent: the record to save, if it
/// changes, and the result.
pub open spec fn reply(meta: MetaView, reply: Result<ResultView, ErrorView>) -> (
    Option<MetaView>,
    ProcessView,
) {
    match reply {
        Ok(words) => (Some(recovered_meta(meta, words)), ProcessView::Recovered),
        Err(error) => if passes(error) {
            (None, ProcessView::StillOffline)
        } else if walls(error) {
            (None, ProcessView::Blocked(error))
        } else {
            (
                Some(
                    MetaView {
                        status: SessionStatus::Failed,
                        error_code: Some(
                            match error {
                                ErrorView::ModelUnavailable { .. } => "model"@,
                                ErrorView::BadRequest(_) => "bad_request"@,
                                _ => "retry_"@ + error.words(),
                            },
                        ),
                        error_message: match error {
                            ErrorView::ModelUnavailable { model, detail } => match detail {
                                Some(detail) => Some(detail),
                                None => Some("model "@ + model + " not accessible"@),
                            },
                            ErrorView::BadRequest(message) => Some(message),
                            _ => meta.error_message,
                        },
                        ..meta
                    },
                ),
                ProcessView::Failed,
            )
        },
    }
}

pub open spec fn reply_view(reply: Result<TranscriptionResult, TranscriptionError>) -> Result<
    ResultView,
    ErrorView,
> {
    match reply {
        Ok(words) => Ok(words@),
        Err(error) => Err(error@),
    }
}

fn recovered_record(meta: SessionMeta, words: TranscriptionResult) -> (record: SessionMeta)
    ensures
        record@ == recovered_meta(meta@, words@),
{
    let mut record = meta;
    record.raw_transcript = Some(words.raw_transcript);
    record.cleaned_transcript = Some(words.cleaned_transcript);
    record.model_id = Some(words.model_id);
    record.status = SessionStatus::Recovered;
    record
}

/// The offline queue: drains on network-restored and on launch, one session at a
/// time. Deliberately simple: connectivity is the retry signal.
#[derive(Debug)]
pub struct RetryQueue {
    pub draining: bool,
}

impl RetryQueue {
    pub fn new() -> (queue: Self)
        ensures
            !queue.draining,
    {
        RetryQueue { draining: false }
    }

    /// Enters the drain, unless somebody is in it: a manual retry must not
    /// process a session that the drain is already sending.
    pub fn enter(&mut self) -> (entered: bool)
        ensures
            entered == !old(self).draining,
            final(self).draining,
    {
        let entered = !self.draining;
        self.draining = true;
        entered
    }

    pub fn leave(&mut self)
        ensures
            !final(self).draining,
    {
        self.draining = false;
    }
}

/// The first half of sending a session again. The record is read from disk: a
/// concurrent path may have finished it.
pub fn begin_process(meta: Option<SessionMeta>, audio_bytes: Option<u64>) -> (made: Plan)
    ensures
        made@ == plan(opt_meta(meta), audio_bytes),
{
    let mut meta = match meta {
        Some(meta) => meta,
        None => {
            return Plan::Settled { record: None, result: ProcessResult::Skipped };
        },
    };
    if matches!(
        meta.status,
        SessionStatus::AwaitingChip | SessionStatus::Inserted | SessionStatus::Recovered
    ) {
        return Plan::Settled { record: None, result: ProcessResult::Skipped };
    }
    // The words already exist: recover them instead of dead-ending on missing
    // audio.
    if meta.raw_transcript.is_some() {
        meta.status = SessionStatus::Recovered;
        meta.error_code = None;
        return Plan::Settled { record: Some(meta), result: ProcessResult::Recovered };
    }
    if audio_bytes.is_none() {
        meta.status = SessionStatus::Failed;
        meta.error_code = Some("audio_purged".to_owned());
        return Plan::Settled { record: Some(meta), result: ProcessResult::Failed };
    }
    let duration = session_duration(&meta, audio_bytes);
    let context = retry_context(&meta);
    Plan::Send { meta, duration, context }
}

/// The second half: what the reply makes of the session.
pub fn finish_process(
    meta: SessionMeta,
    answer: Result<TranscriptionResult, TranscriptionError>,
) -> (done: (Option<SessionMeta>, ProcessResult))
    ensures
        opt_meta(done.0) == reply(meta@, reply_view(answer)).0,
        done.1@ == reply(meta@, reply_view(answer)).1,
{
    let mut record = meta;
    match answer {
        Ok(words) => (Some(recovered_record(record, words)), ProcessResult::Recovered),
        Err(error) => match error {
            TranscriptionError::Offline
            | TranscriptionError::Network(_)
            | TranscriptionError::Timeout
            | TranscriptionError::RateLimitedTransient => (None, ProcessResult::StillOffline),
            // The queued promise survives to the next drain.
            TranscriptionError::Auth => (None, ProcessResult::Blocked(TranscriptionError::Auth)),
            TranscriptionError::RateLimitedDaily => (
                None,
                ProcessResult::Blocked(TranscriptionError::RateLimitedDaily),
            ),
            TranscriptionError::ModelUnavailable { model, detail } => {
                record.status = SessionStatus::Failed;
                record.error_code = Some("model".to_owned());
                record.error_message = match detail {
                    Some(detail) => Some(detail),
                    None => {
                        let mut s = "model ".to_owned();
                        s.append(model.as_str());
                        s.append(" not accessible");
                        Some(s)
                    },
                };
                (Some(record), ProcessResult::Failed)
            },
            // Permanent: marked failed so the queue never spins on it.
            TranscriptionError::BadRequest(message) => {
                record.status = SessionStatus::Failed;
                record.error_code = Some("bad_request".to_owned());
                record.error_message = Some(message);
                (Some(record), ProcessResult::Failed)
            },
            TranscriptionError::EmptyTranscript => {
                record.status = SessionStatus::Failed;
                let mut code = "retry_".to_owned();
                code.append(TranscriptionError::EmptyTranscript.message().as_str());
                record.error_code = Some(code);
                (Some(record), ProcessResult::Failed)
            },
            TranscriptionError::SafetyBlocked => {
                record.status = SessionStatus::Failed;
                let mut code = "retry_".to_owned();
                code.append(TranscriptionError::SafetyBlocked.message().as_str());
                record.error_code = Some(code);
                (Some(record), ProcessResult::Failed)
            },
        },
    }
}

/// A drain under way.
#[derive(Debug)]
pub struct Drain {
    pub recovered: usize,
}

/// What a drain does after a session.
#[derive(Debug, PartialEq, Eq)]
pub enum DrainStep {
    Next,
    /// The drain is over for now.
    Pause,
    /// The drain is over, and the user is told why, once.
    Blocked(TranscriptionError),
}

/// How many sessions a drain has recovered, with this one.
pub open spec fn counted(recovered: usize, result: ProcessResult) -> usize {
    if result is Recovered && recovered < usize::MAX {
        (recovered + 1) as usize
    } else {
        recovered
    }
}

/// What a drain does after a session that came to this.
pub open spec fn step_after(result: ProcessResult) -> DrainStep {
    match result {
        ProcessResult::StillOffline => DrainStep::Pause,
        ProcessResult::Blocked(error) => DrainStep::Blocked(error),
        _ => DrainStep::Next,
    }
}

impl Drain {
    pub fn new() -> (drain: Self)
        ensures
            drain.recovered == 0,
    {
        Drain { recovered: 0 }
    }

    /// A session has had its turn. Still offline, or an account-level wall,
    /// stops the drain and leaves the rest of the queue as it is.
    pub fn after(&mut self, result: ProcessResult) -> (step: DrainStep)
        ensures
            final(self).recovered == counted(old(self).recovered, result),
            step == step_after(result),
    {
        match result {
            ProcessResult::Recovered => {
                if self.recovered < usize::MAX {
                    self.recovered += 1;
                }
                DrainStep::Next
            },
            ProcessResult::StillOffline => DrainStep::Pause,
            ProcessResult::Blocked(error) => DrainStep::Blocked(error),
            ProcessResult::Failed => DrainStep::Next,
            ProcessResult::Skipped => DrainStep::Next,
        }
    }

    /// How many to report once the drain is over; none are not worth a report.
    pub fn report(&self) -> (count: Option<usize>)
        ensures
            count == (if self.recovered == 0 {
                None::<usize>
            } else {
                Some(self.recovered)
            }),
    {
        if self.recovered == 0 {
            None
        } else {
            Some(self.recovered)
        }
    }
}

/// What a manual retry tells the user.
pub fn outcome_of(result: &ProcessResult) -> (outcome: RetryOutcome)
    ensures
        outcome == (match *result {
            ProcessResult::Recovered => RetryOutcome::Recovered,
            ProcessResult::StillOffline => RetryOutcome::StillOffline,
            ProcessResult::Blocked(_) => RetryOutcome::Blocked,
            ProcessResult::Failed => RetryOutcome::Failed,
            ProcessResult::Skipped => RetryOutcome::AlreadyDone,
        }),
{
    match result {
        ProcessResult::Recovered => RetryOutcome::Recovered,
        ProcessResult::StillOffline => RetryOutcome::StillOffline,
        ProcessResult::Blocked(_) => RetryOutcome::Blocked,
        ProcessResult::Failed => RetryOutcome::Failed,
        ProcessResult::Skipped => RetryOutcome::AlreadyDone,
    }
}

/// Watches connectivity for the moment it comes back.
#[derive(Debug, Clone, Copy, PartialEq, Eq, Structural)]
pub struct ConnectivityWatch {
    pub was_online: bool,
}

/// Whether the machine came back online between two looks.
pub open spec fn reconnected(was_online: bool, online: bool) -> bool {
    online && !was_online
}

impl ConnectivityWatch {
    pub fn new(online: bool) -> (watch: Self)
        ensures
            watch.was_online == online,
    {
        ConnectivityWatch { was_online: online }
    }

    /// Whether to drain: the machine was offline at the last look and is not
    /// now.
    pub fn look(&mut self, online: bool) -> (came_online: bool)
        ensures
            came_online == reconnected(old(self).was_online, online),
            final(self).was_online == online,
    {
        let came_online = online && !self.was_online;
        self.was_online = online;
        came_online
    }
}

/// What to do with a session found unfinished at launch.
#[derive(Debug)]
pub enum ScanPlan {
    /// Its folder says nothing: leave it.
    Leave,
    /// Save the record, and say so to the user if `announce`.
    Settle { record: SessionMeta, announce: bool },
    /// Send the audio and take the reply to `finish_scan`.
    Send { meta: SessionMeta, duration: Duration, context: DictationContext },
}

pub enum ScanView {
    Leave,
    Settle { record: MetaView, announce: bool },
    Send { meta: MetaView, duration: Duration, context: ContextView },
}

impl View for ScanPlan {
    type V = ScanView;

    open spec fn view(&self) -> ScanView {
        match self {
            ScanPlan::Leave => ScanView::Leave,
            ScanPlan::Settle { record, announce } => ScanView::Settle {
                record: record@,
                announce: *announce,
            },
            ScanPlan::Send { meta, duration, context } => ScanView::Send {
                meta: meta@,
                duration: *duration,
                context: context@,
            },
        }
    }
}

/// The most recent interrupted session is sent at once: that is the one the user
/// lost mid-flow. Older ones become rows to retry by hand. Words that already
/// exist are surfaced before anything else is looked at: under "never keep
/// audio" the recording is already gone.
pub open spec fn scan(index: int, meta: Option<MetaView>, audio_bytes: Option<u64>) -> ScanView {
    match meta {
        None => ScanView::Leave,
        Some(meta) => if meta.raw_transcript is Some {
            ScanView::Settle {
                record: MetaView { status: SessionStatus::Recovered, ..meta },
                announce: index == 0,
            }
        } else if audio_bytes is None {
            ScanView::Settle {
                record: MetaView {
                    status: SessionStatus::Failed,
                    error_code: Some("no_audio_file"@),
                    ..meta
                },
                announce: false,
            }
        } else if index > 0 {
            ScanView::Settle {
                record: MetaView {
                    status: SessionStatus::QueuedForRetry,
                    error_code: match meta.error_code {
                        Some(code) => Some(code),
                        None => Some("recovered"@),
                    },
                    ..meta
                },
                announce: false,
            }
        } else {
            ScanView::Send {
                meta,
                duration: length_of(meta, audio_bytes),
                context: context_of(meta),
            }
        },
    }
}

/// What to do with the interrupted session at `index`, newest first.
pub fn scan_session(index: usize, meta: Option<SessionMeta>, audio_bytes: Option<u64>) -> (
    made: ScanPlan)
    ensures
        made@ == scan(index as int, opt_meta(meta), audio_bytes),
{
    let mut meta = match meta {
        Some(meta) => meta,
        None => {
            return ScanPlan::Leave;
        },
    };
    if meta.raw_transcript.is_some() {
        meta.status = SessionStatus::Recovered;
        return ScanPlan::Settle { record: meta, announce: index == 0 };
    }
    if audio_bytes.is_none() {
        meta.status = SessionStatus::Failed;
        meta.error_code = Some("no_audio_file".to_owned());
        return ScanPlan::Settle { record: meta, announce: false };
    }
    if index > 0 {
        meta.status = SessionStatus::QueuedForRetry;
        if meta.error_code.is_none() {
            meta.error_code = Some("recovered".to_owned());
        }
        return ScanPlan::Settle { record: meta, announce: false };
    }
    let duration = session_duration(&meta, audio_bytes);
    let context = retry_context(&meta);
    ScanPlan::Send { meta, duration, context }
}

/// The interrupted session after the reply: recovered, or queued, whatever went
/// wrong.
pub open spec fn rescued(meta: MetaView, answer: Result<ResultView, ErrorView>) -> MetaView {
    match answer {
        Ok(words) => recovered_meta(meta, words),
        Err(_) => MetaView { status: SessionStatus::QueuedForRetry, ..meta },
    }
}

/// What the reply makes of the interrupted session, and whether to say so: a
/// recovery is announced.
pub fn finish_scan(
    meta: SessionMeta,
    answer: Result<TranscriptionResult, TranscriptionError>,
) -> (done: (SessionMeta, bool))
    ensures
        done.0@ == rescued(meta@, reply_view(answer)),
        done.1 == (answer is Ok),
{
    match answer {
        Ok(words) => (recovered_record(meta, words), true),
        Err(_) => {
            let mut record = meta;
            record.status = SessionStatus::QueuedForRetry;
            (record, false)
        },
    }
}

/// Words that exist are never sent again and never lost: a retry and a scan both
/// recover them, audio or no audio.
pub proof fn existing_words_are_recovered_without_sending(
    meta: MetaView,
    audio_bytes: Option<u64>,
    index: int,
)
    requires
        meta.raw_transcript is Some,
        !finished(meta.status),
    ensures
        plan(Some(meta), audio_bytes) matches PlanView::Settled { record: Some(record), result }
            && result is Recovered && record.raw_transcript == meta.raw_transcript && record.status
            == SessionStatus::Recovered,
        scan(index, Some(meta), audio_bytes) matches ScanView::Settle { record, .. }
            && record.raw_transcript == meta.raw_transcript && record.status
            == SessionStatus::Recovered,
{
}

/// An auth wall, a daily quota or a dead connection never changes a queued
/// session: its promise to be sent again stands.
pub proof fn walls_keep_the_queued_promise(meta: MetaView, error: ErrorView)
    requires
        passes(error) || walls(error),
    ensures
        reply(meta, Err(error)).0 is None,
{
}

/// A status that says nothing of the clipboard or the cursor.
pub open spec fn no_paste(status: SessionStatus) -> bool {
    status is Recovered || status is Failed || status is QueuedForRetry
}

/// Nothing that is recovered claims to be on the clipboard or at the cursor.
pub proof fn recovered_sessions_promise_no_paste(
    meta: MetaView,
    audio_bytes: Option<u64>,
    index: int,
    answer: Result<ResultView, ErrorView>,
)
    ensures
        plan(Some(meta), audio_bytes) matches PlanView::Settled { record: Some(record), .. }
            ==> no_paste(record.status),
        reply(meta, answer).0 matches Some(record) ==> no_paste(record.status),
        scan(index, Some(meta), audio_bytes) matches ScanView::Settle { record, .. } ==> no_paste(
            record.status,
        ),
        no_paste(rescued(meta, answer).status),
{
}

/// A permanent failure leaves the retry queue for good: what it becomes is not
/// retryable.
pub proof fn permanent_failures_leave_the_queue(
    meta: MetaView,
    error: ErrorView,
    folder: Seq<char>,
)
    requires
        !passes(error),
        !walls(error),
    ensures
        reply(meta, Err(error)).0 matches Some(record) && !crate::history::RecordView::of(
            record,
            folder,
        ).retryable(),
{
    let record = reply(meta, Err(error)).0->0;
    let row = crate::history::RecordView::of(record, folder);
    crate::meta::status_labels_are_distinct(record.status, SessionStatus::QueuedForRetry);
    reveal_strlit("network");
    reveal_strlit("timeout");
    reveal_strlit("rate_limit");
    reveal_strlit("model");
    reveal_strlit("bad_request");
    reveal_strlit("retry_");
    let code = row.error_code->0;
    assert(code.len() > 0);
    assert(code[0] == 'm' || code[0] == 'b' || (code[0] == 'r' && code[1] == 'e'));
    assert(code != "network"@) by {
        assert("network"@[0] == 'n');
    }
    assert(code != "timeout"@) by {
        assert("timeout"@[0] == 't');
    }
    assert(code != "rate_limit"@) by {
        assert("rate_limit"@[0] == 'r' && "rate_limit"@[1] == 'a');
    }
}

/// The scan at launch settles every session that it can read: none stays in
/// flight, whatever the reply.
pub proof fn no_session_stays_interrupted(
    index: int,
    meta: MetaView,
    audio_bytes: Option<u64>,
    answer: Result<ResultView, ErrorView>,
)
    ensures
        match scan(index, Some(meta), audio_bytes) {
            ScanView::Leave => false,
            ScanView::Settle { record, .. } => !record.status.in_flight(),
            ScanView::Send { meta, .. } => !rescued(meta, answer).status.in_flight(),
        },
{
}

/// Only the newest interruption is sent on its own.
pub proof fn only_the_newest_interruption_is_sent(
    index: int,
    meta: Option<MetaView>,
    audio_bytes: Option<u64>,
)
    requires
        index > 0,
    ensures
        !(scan(index, meta, audio_bytes) is Send),
{
}

/// A record that says the same of the recording: which it is, when and where it was
/// made, and how it sounded.
pub open spec fn same_recording(a: MetaView, b: MetaView) -> bool {
    &&& a.id == b.id
    &&& a.started_at == b.started_at
    &&& a.target_app_exe == b.target_app_exe
    &&& a.target_app_name == b.target_app_name
    &&& a.audio_duration == b.audio_duration
    &&& a.gap_markers == b.gap_markers
    &&& a.pipeline_time == b.pipeline_time
    &&& a.noise_floor == b.noise_floor
    &&& a.speech_peak == b.speech_peak
}

/// Offline, a network failure, a timeout or a busy server leave a session queued:
/// its record is not touched, and the drain waits for the next reconnect.
pub proof fn a_dropped_connection_leaves_the_session_queued(meta: MetaView, detail: Seq<char>)
    ensures
        reply(meta, Err(ErrorView::Offline)) == (None::<MetaView>, ProcessView::StillOffline),
        reply(meta, Err(ErrorView::Network(detail))) == (
            None::<MetaView>,
            ProcessView::StillOffline,
        ),
        reply(meta, Err(ErrorView::Timeout)) == (None::<MetaView>, ProcessView::StillOffline),
        reply(meta, Err(ErrorView::RateLimitedTransient)) == (
            None::<MetaView>,
            ProcessView::StillOffline,
        ),
{
}

/// A rejected key and a spent daily quota stop the drain with that error, and
/// leave the session queued as it was.
pub proof fn an_account_wall_blocks_and_changes_nothing(meta: MetaView)
    ensures
        reply(meta, Err(ErrorView::Auth)) == (
            None::<MetaView>,
            ProcessView::Blocked(ErrorView::Auth),
        ),
        reply(meta, Err(ErrorView::RateLimitedDaily)) == (
            None::<MetaView>,
            ProcessView::Blocked(ErrorView::RateLimitedDaily),
        ),
{
}

/// What sending again cannot mend marks the session failed, with a code and words
/// for it, and keeps whatever words and recording there are.
pub proof fn a_permanent_failure_is_marked(
    meta: MetaView,
    model: Seq<char>,
    detail: Option<Seq<char>>,
    message: Seq<char>,
)
    ensures
        forall|error: ErrorView|
            #![trigger reply(meta, Err(error))]
            error == (ErrorView::ModelUnavailable { model, detail }) || error
                == ErrorView::BadRequest(message) || error is EmptyTranscript || error
                is SafetyBlocked ==> {
                &&& reply(meta, Err(error)).1 is Failed
                &&& reply(meta, Err(error)).0 matches Some(record) && record.status
                    == SessionStatus::Failed && record.raw_transcript == meta.raw_transcript
                    && record.cleaned_transcript == meta.cleaned_transcript && record.model_id
                    == meta.model_id && same_recording(record, meta)
            },
        (reply(meta, Err(ErrorView::ModelUnavailable { model, detail })).0->0).error_code == Some(
            "model"@,
        ),
        detail is Some ==> (reply(
            meta,
            Err(ErrorView::ModelUnavailable { model, detail }),
        ).0->0).error_message == detail,
        (reply(meta, Err(ErrorView::BadRequest(message))).0->0).error_code == Some("bad_request"@),
        (reply(meta, Err(ErrorView::BadRequest(message))).0->0).error_message == Some(message),
        (reply(meta, Err(ErrorView::EmptyTranscript)).0->0).error_code == Some(
            "retry_"@ + "empty transcript"@,
        ),
        (reply(meta, Err(ErrorView::SafetyBlocked)).0->0).error_code == Some(
            "retry_"@ + "blocked by safety filters"@,
        ),
{
}

/// Words that come back are written into the record, both as they were said and
/// as they were cleaned, with the model that wrote them; the rest of the record is
/// the session's.
pub proof fn words_that_come_back_are_recorded(meta: MetaView, words: ResultView)
    ensures
        ({
            let drained = reply(meta, Ok(words));
            &&& drained.1 is Recovered
            &&& drained.0 == Some(rescued(meta, Ok(words)))
        }),
        ({
            let record = rescued(meta, Ok(words));
            &&& record.raw_transcript == Some(words.raw_transcript)
            &&& record.cleaned_transcript == Some(words.cleaned_transcript)
            &&& record.model_id == Some(words.model_id)
            &&& record.status == SessionStatus::Recovered
            &&& record.error_code == meta.error_code
            &&& record.error_message == meta.error_message
            &&& same_recording(record, meta)
        }),
{
}

/// A session is skipped exactly if it has no record, or was inserted, copied or
/// recovered meanwhile. Any other status has its turn.
pub proof fn only_finished_sessions_are_skipped(
    meta: Option<MetaView>,
    audio_bytes: Option<u64>,
)
    ensures
        (plan(meta, audio_bytes) matches PlanView::Settled { record, result } && result
            is Skipped) <==> (meta is None || meta->0.status is AwaitingChip || meta->0.status
            is Inserted || meta->0.status is Recovered),
        plan(meta, audio_bytes) matches PlanView::Settled { record, result } ==> (result is Skipped
            ==> record is None),
{
}

/// A session without words whose audio is there is sent, with its own record, the
/// names of the program it was dictated into and no process; one whose audio is
/// gone has failed.
pub proof fn a_session_without_words_is_sent_if_it_can_be(meta: MetaView, audio_bytes: Option<u64>)
    requires
        meta.raw_transcript is None,
        !(meta.status is AwaitingChip),
        !(meta.status is Inserted),
        !(meta.status is Recovered),
    ensures
        audio_bytes is Some ==> {
            &&& plan(Some(meta), audio_bytes) matches PlanView::Send { meta: sent, context, .. }
                && sent == meta && context.target_app_exe == meta.target_app_exe
                && context.target_app_name == meta.target_app_name && context.target_pid is None
            &&& scan(0, Some(meta), audio_bytes) matches ScanView::Send { meta: sent, context, .. }
                && sent == meta && context.target_app_exe == meta.target_app_exe
                && context.target_app_name == meta.target_app_name && context.target_pid is None
        },
        audio_bytes is None ==> (plan(Some(meta), audio_bytes) matches PlanView::Settled {
            record: Some(record),
            result,
        } && result is Failed && record.status == SessionStatus::Failed && record.error_code
            == Some("audio_purged"@) && same_recording(record, meta)),
{
}

/// What is sent is given as long as it lasts: what the record says, else what the
/// file holds at 32000 bytes a second after a header of 44, else a minute.
pub proof fn a_sent_session_is_given_its_length(meta: MetaView, bytes: u64)
    requires
        meta.raw_transcript is None,
        !(meta.status is AwaitingChip),
        !(meta.status is Inserted),
        !(meta.status is Recovered),
    ensures
        plan(Some(meta), Some(bytes)) matches PlanView::Send { duration, .. } && ({
            &&& meta.audio_duration matches Some(length) ==> duration == length
            &&& meta.audio_duration is None && bytes > 4140 ==> duration.nanos * 32_000 == (bytes
                - 44) * 1_000_000_000
            &&& meta.audio_duration is None && bytes <= 4140 ==> duration.nanos == 60_000_000_000
        }),
        scan(0, Some(meta), Some(bytes)) matches ScanView::Send { duration: at_launch, .. }
            && plan(Some(meta), Some(bytes)) matches PlanView::Send { duration, .. } && at_launch
            == duration,
{
}

/// At launch an older session without words waits in the queue, under the error it
/// had; one without audio has failed; neither is announced, and neither loses what
/// its record says.
pub proof fn older_interruptions_are_queued(index: int, meta: MetaView, audio_bytes: Option<u64>)
    requires
        meta.raw_transcript is None,
    ensures
        index > 0 && audio_bytes is Some ==> (scan(index, Some(meta), audio_bytes) matches
            ScanView::Settle { record, announce } && !announce && record.status
            == SessionStatus::QueuedForRetry && (meta.error_code is Some ==> record.error_code
            == meta.error_code) && (meta.error_code is None ==> record.error_code == Some(
            "recovered"@,
        )) && same_recording(record, meta)),
        audio_bytes is None ==> (scan(index, Some(meta), audio_bytes) matches ScanView::Settle {
            record,
            announce,
        } && !announce && record.status == SessionStatus::Failed && record.error_code == Some(
            "no_audio_file"@,
        ) && same_recording(record, meta)),
{
}

/// A session whose words exist is announced at launch if it is the newest, and
/// keeps both its transcripts.
pub proof fn recovered_words_are_announced_for_the_newest(
    index: int,
    meta: MetaView,
    audio_bytes: Option<u64>,
)
    requires
        meta.raw_transcript is Some,
    ensures
        scan(index, Some(meta), audio_bytes) matches ScanView::Settle { record, announce }
            && announce == (index == 0) && record.cleaned_transcript == meta.cleaned_transcript
            && same_recording(record, meta),
        scan(index, None, audio_bytes) is Leave,
{
}

/// An interrupted session that cannot be sent now waits in the queue, whatever the
/// error, with its record as it was.
pub proof fn a_failed_rescue_is_queued(meta: MetaView, error: ErrorView)
    ensures
        rescued(meta, Err(error)).status == SessionStatus::QueuedForRetry,
        rescued(meta, Err(error)).raw_transcript == meta.raw_transcript,
        rescued(meta, Err(error)).cleaned_transcript == meta.cleaned_transcript,
        rescued(meta, Err(error)).error_code == meta.error_code,
        same_recording(rescued(meta, Err(error)), meta),
{
}

/// A retry by hand says what became of the session.
pub proof fn a_retry_says_what_happened(result: ProcessResult, outcome: RetryOutcome)
    requires
        call_ensures(outcome_of, (&result,), outcome),
    ensures
        outcome == RetryOutcome::Recovered <==> result is Recovered,
        outcome == RetryOutcome::StillOffline <==> result is StillOffline,
        outcome == RetryOutcome::Blocked <==> result is Blocked,
        outcome == RetryOutcome::Failed <==> result is Failed,
        outcome == RetryOutcome::AlreadyDone <==> result is Skipped,
{
}

/// The same of the call: while the connection is at fault, nothing is saved over a
/// queued session and the drain is told to wait.
pub proof fn finishing_offline_saves_nothing(
    meta: SessionMeta,
    error: TranscriptionError,
    done: (Option<SessionMeta>, ProcessResult),
)
    requires
        call_ensures(finish_process, (meta, Err(error)), done),
        error is Offline || error is Network || error is Timeout || error is RateLimitedTransient,
    ensures
        done.0 is None,
        done.1 is StillOffline,
{
    assert(error@ is Offline || error@ is Network || error@ is Timeout || error@
        is RateLimitedTransient);
}

/// A drain goes on from session to session until one is still offline, where it
/// pauses, or blocked, where it stops with the error; and it counts those that it
/// recovered.
pub proof fn a_drain_stops_only_at_a_wall(result: ProcessResult, recovered: usize)
    ensures
        step_after(result) is Next <==> result is Recovered || result is Failed || result
            is Skipped,
        step_after(result) is Pause <==> result is StillOffline,
        result matches ProcessResult::Blocked(error) ==> step_after(result) == DrainStep::Blocked(
            error,
        ),
        result is Recovered && recovered < usize::MAX ==> counted(recovered, result) == recovered
            + 1,
        !(result is Recovered) ==> counted(recovered, result) == recovered,
{
}

/// The queue drains when the machine comes online, and not while it stays so.
pub proof fn reconnecting_drains_the_queue(was_online: bool, online: bool)
    ensures
        !was_online && online ==> reconnected(was_online, online),
        was_online || !online ==> !reconnected(was_online, online),
{
}

/// What a drain recovered is reported, and nothing is not.
pub proof fn a_recovery_is_reported(drain: Drain, count: Option<usize>)
    requires
        call_ensures(Drain::report, (&drain,), count),
    ensures
        count is None <==> drain.recovered == 0,
        count matches Some(n) ==> n == drain.recovered,
{
}

/// Words that a retry finds in the record clear its error; both ways keep what was
/// written of them and of the recording.
pub proof fn recovered_words_clear_the_error(
    meta: MetaView,
    audio_bytes: Option<u64>,
    index: int,
)
    requires
        meta.raw_transcript is Some,
        !(meta.status is AwaitingChip),
        !(meta.status is Inserted),
        !(meta.status is Recovered),
    ensures
        plan(Some(meta), audio_bytes) matches PlanView::Settled { record: Some(record), result }
            && result is Recovered && record.status == SessionStatus::Recovered && record.error_code
            is None && record.raw_transcript == meta.raw_transcript && record.cleaned_transcript
            == meta.cleaned_transcript && same_recording(record, meta),
        scan(index, Some(meta), audio_bytes) matches ScanView::Settle { record, .. }
            && record.error_code == meta.error_code,
{
}

} // verus!
