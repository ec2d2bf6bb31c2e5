use jot::audio::{AudioCaptureResult, Recorder, Turn, WRITE_FAILURE_LIMIT};
use jot::clock::Duration;
use jot::gemini::TranscriptionError;
use jot::history::{DictationRecord, HistoryStore};
use jot::levels::Level;
use jot::meta::{SessionMeta, SessionStatus};
use jot::recovery::{
    begin_process, finish_process, finish_scan, outcome_of, scan_session, session_duration,
    ConnectivityWatch, Drain, DrainStep, Plan, ProcessResult, RetryOutcome, RetryQueue, ScanPlan,
    UNKNOWN_DURATION,
};
use jot::transcription::TranscriptionResult;

const NOW: i128 = 1_787_839_509_000_000_000;

type Answer = Result<TranscriptionResult, TranscriptionError>;

fn transcript(text: &str) -> Answer {
    Ok(TranscriptionResult {
        raw_transcript: text.into(),
        cleaned_transcript: text.into(),
        model_id: "test".into(),
    })
}

fn meta(status: SessionStatus) -> SessionMeta {
    SessionMeta::new(7, NOW, status)
}

/// One pass over one stored session: what is on disk afterwards, how it went,
/// and whether anything was uploaded.
fn process(
    stored: SessionMeta,
    audio: Option<u64>,
    answer: Answer,
) -> (SessionMeta, ProcessResult, bool) {
    match begin_process(Some(stored.clone()), audio) {
        Plan::Settled { record, result } => (record.unwrap_or(stored), result, false),
        Plan::Send { meta, .. } => {
            let (record, result) = finish_process(meta, answer);
            (record.unwrap_or(stored), result, true)
        }
    }
}

const AUDIO: Option<u64> = Some(44 + 32_000);

#[test]
fn a_queued_row_with_audio_is_recovered_never_inserted() {
    let (meta, _, _) =
        process(meta(SessionStatus::QueuedForRetry), AUDIO, transcript("hello there"));
    assert_eq!(meta.status, SessionStatus::Recovered);
    assert_eq!(meta.cleaned_transcript.as_deref(), Some("hello there"));
}

#[test]
fn an_existing_transcript_is_recovered_without_re_uploading() {
    let mut stored = meta(SessionStatus::QueuedForRetry);
    stored.raw_transcript = Some("already transcribed".into());
    let (after, _, called) = process(stored, None, Err(TranscriptionError::Offline));
    assert!(!called, "must not re-upload");
    assert_eq!(after.status, SessionStatus::Recovered);
}

#[test]
fn purged_audio_with_no_transcript_fails_rather_than_spinning() {
    let (meta, _, _) = process(
        meta(SessionStatus::QueuedForRetry),
        None,
        Err(TranscriptionError::Offline),
    );
    assert_eq!(meta.status, SessionStatus::Failed);
    assert_eq!(meta.error_code.as_deref(), Some("audio_purged"));
}

#[test]
fn an_auth_wall_keeps_the_queued_promise_intact() {
    let (meta, result, _) =
        process(meta(SessionStatus::QueuedForRetry), AUDIO, Err(TranscriptionError::Auth));
    let mut drain = Drain::new();
    assert_eq!(
        drain.after(result),
        DrainStep::Blocked(TranscriptionError::Auth),
        "the user is told once"
    );
    assert_eq!(meta.status, SessionStatus::QueuedForRetry);
}

#[test]
fn a_permanent_failure_is_marked_so_the_queue_stops_retrying_it() {
    let (meta, _, _) = process(
        meta(SessionStatus::QueuedForRetry),
        AUDIO,
        Err(TranscriptionError::BadRequest("malformed".into())),
    );
    assert_eq!(meta.status, SessionStatus::Failed);
    assert_eq!(meta.error_code.as_deref(), Some("bad_request"));
    let mut store = HistoryStore::new();
    store.upsert(&meta, "session");
    assert!(store.retryable_records().is_empty());
}

#[test]
fn offline_leaves_the_row_queued_for_the_next_edge() {
    let (meta, result, _) =
        process(meta(SessionStatus::QueuedForRetry), AUDIO, Err(TranscriptionError::Offline));
    assert_eq!(meta.status, SessionStatus::QueuedForRetry);
    assert_eq!(Drain::new().after(result), DrainStep::Pause);
}

#[test]
fn a_finished_row_is_skipped_by_a_manual_retry() {
    let stored = meta(SessionStatus::Inserted);
    let record = DictationRecord::from_meta(&stored, "session");
    assert!(!record.is_retryable());
    let (_, result, called) = process(stored, AUDIO, transcript("again"));
    assert!(!called);
    assert_eq!(outcome_of(&result), RetryOutcome::AlreadyDone);
}

#[test]
fn only_the_newest_interruption_is_auto_transcribed() {
    let mut sessions = Vec::new();
    for (id, offset) in [(1, 0), (2, 3_600_000_000_000)] {
        let mut meta = SessionMeta::new(id, NOW - offset, SessionStatus::Recorded);
        meta.audio_duration = Some(Duration::from_secs(1));
        sessions.push(meta);
    }
    let mut statuses = Vec::new();
    for (index, stored) in sessions.into_iter().enumerate() {
        let after = match scan_session(index, Some(stored.clone()), AUDIO) {
            ScanPlan::Leave => stored,
            ScanPlan::Settle { record, .. } => record,
            ScanPlan::Send { meta, .. } => finish_scan(meta, transcript("newest")).0,
        };
        statuses.push(after.status);
    }
    assert_eq!(statuses, vec![SessionStatus::Recovered, SessionStatus::QueuedForRetry]);
}

#[test]
fn a_missing_duration_is_estimated_from_the_recording() {
    let meta = meta(SessionStatus::Recorded);
    assert_eq!(session_duration(&meta, Some(44 + 64_000)), Duration::from_secs(2));
}

#[test]
fn an_unmeasurable_recording_falls_back_to_a_bounded_guess() {
    let meta = meta(SessionStatus::Recorded);
    assert_eq!(session_duration(&meta, None), Duration::from_nanos(UNKNOWN_DURATION));
}

#[test]
fn only_one_drain_runs_at_a_time() {
    let mut queue = RetryQueue::new();
    assert!(queue.enter());
    assert!(!queue.enter());
    queue.leave();
    assert!(queue.enter());
}

#[test]
fn a_drain_reports_what_it_brought_back() {
    let mut drain = Drain::new();
    assert_eq!(drain.report(), None);
    assert_eq!(drain.after(ProcessResult::Recovered), DrainStep::Next);
    assert_eq!(drain.after(ProcessResult::Failed), DrainStep::Next);
    assert_eq!(drain.report(), Some(1));
}

#[test]
fn only_the_edge_to_online_counts() {
    let mut watch = ConnectivityWatch::new(false);
    assert!(!watch.look(false));
    assert!(watch.look(true));
    assert!(!watch.look(true));
    assert!(!watch.look(false));
    assert!(watch.look(true));
}

#[test]
fn an_unmetered_capture_is_marked_untrustworthy() {
    let recorder = Recorder::new(Duration::from_nanos(0));
    let result = recorder.finish();
    assert!(!result.peak_is_trustworthy);
}

#[test]
fn a_recording_counts_its_frames_and_gaps() {
    let mut recorder = Recorder::new(Duration::from_nanos(0));
    let loud = Level::from_bits(0.5f32.to_bits());
    assert!(!recorder.on_chunk(16_000, true, loud, loud));
    recorder.device_changed(Duration::from_secs(1));
    recorder.drained(8_000);
    let result = recorder.finish();
    assert_eq!(result.frames_written, 24_000);
    assert_eq!(result.duration, Duration::from_millis(1_500));
    assert_eq!(result.gap_markers, vec![Duration::from_secs(1)]);
    assert_eq!(result.peak_level, loud);
    assert!(result.peak_is_trustworthy);
    assert!(AudioCaptureResult::default().peak_is_trustworthy);
}

#[test]
fn a_failing_disk_is_reported_once() {
    let mut recorder = Recorder::new(Duration::from_nanos(0));
    let level = Level::from_bits(0);
    let mut reports = 0;
    for _ in 0..WRITE_FAILURE_LIMIT + 3 {
        if recorder.on_chunk(160, false, level, level) {
            reports += 1;
        }
    }
    assert_eq!(reports, 1);
}

#[test]
fn stopping_drains_the_last_buffers() {
    let mut recorder = Recorder::new(Duration::from_nanos(0));
    assert_eq!(recorder.after_turn(Duration::from_millis(10), false), Turn::Continue);
    assert_eq!(recorder.after_turn(Duration::from_secs(1), false), Turn::Housekeeping);
    assert_ne!(recorder.after_turn(Duration::from_millis(1_010), true), Turn::Finish);
    assert_eq!(recorder.after_turn(Duration::from_millis(1_100), true), Turn::Finish);
}
