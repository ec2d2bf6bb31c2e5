use jot::audio::{AudioCaptureResult, CaptureError};
use jot::clock::Duration;
use jot::coordinator::{
    classify, Action, CoordinatorUpdate, DictationCoordinator, Reception, RoomReading,
    TrailingWatch, COACH_TIP, ONE_MINUTE_LEFT, PASSWORD_HINT, TRAILING_RELATIVE_CAP,
    TRAILING_SPEECH_THRESHOLD,
};
use jot::gemini::TranscriptionError;
use jot::history::DictationRecord;
use jot::hotkey::HotkeyIntent;
use jot::insertion::InsertionOutcome;
use jot::levels::{Decibels, Level, NoiseFloorEstimator};
use jot::meta::{SessionMeta, SessionStatus};
use jot::state_machine::{DictationFailure, DictationOutcome, DictationState, SilenceReason};
use jot::transcription::{DictationContext, TranscriptionResult};

const START: i128 = 1_787_839_509_000_000_000;

fn level(x: f32) -> Level {
    Level::from_bits(x.to_bits())
}

fn db(x: f64) -> Decibels {
    let bits = x.to_bits() as i64;
    Decibels { key: bits ^ (((bits >> 63) as u64) >> 1) as i64 }
}

fn value(db: Decibels) -> f64 {
    let bits = db.key ^ (((db.key >> 63) as u64) >> 1) as i64;
    f64::from_bits(bits as u64)
}

fn dbfs(level: f32) -> f64 {
    let linear = if level <= 0.0 { 0.0 } else { level.min(1.0).powf(1.0 / 0.65) / 11.0 };
    if linear <= 0.0 {
        return -120.0;
    }
    (20.0 * (linear as f64).log10()).max(-120.0)
}

fn level_from_rms(rms: f32) -> f32 {
    if rms <= 0.0 {
        return 0.0;
    }
    (rms * 11.0).min(1.0).powf(0.65).min(1.0)
}

/// How far the loudest sample rose above the room.
fn separation(floor: &NoiseFloorEstimator) -> Option<Decibels> {
    let (peak, room) = floor.measured_snr()?;
    Some(db(value(peak) - value(room)))
}

fn reading(floor: &NoiseFloorEstimator) -> Option<RoomReading> {
    let room = value(floor.floor_db()?);
    Some(RoomReading {
        separation: separation(floor)?,
        above_room: level(level_from_rms(10_f64.powf((room + 3.0) / 20.0) as f32)),
    })
}

struct Harness {
    coordinator: DictationCoordinator,
    capture: AudioCaptureResult,
    start_error: Option<CaptureError>,
    levels: Vec<f32>,
    response: Option<Result<TranscriptionResult, TranscriptionError>>,
    insertion: InsertionOutcome,
    secure: bool,
    hold_capture: bool,
    calls: usize,
    discarded: usize,
    warmups: usize,
    states: Vec<DictationState>,
    hints: Vec<Option<String>>,
    written: Vec<SessionMeta>,
    saved: Vec<SessionMeta>,
    next_id: u128,
    /// How long the key is down, in nanoseconds.
    held: i128,
}

fn harness() -> Harness {
    Harness {
        coordinator: DictationCoordinator::new(),
        capture: AudioCaptureResult {
            frames_written: 16_000,
            duration: Duration::from_secs(1),
            peak_level: level(0.5),
            written_peak_level: level(0.5),
            ..Default::default()
        },
        start_error: None,
        levels: Vec::new(),
        response: None,
        insertion: InsertionOutcome::Inserted,
        secure: false,
        hold_capture: false,
        calls: 0,
        discarded: 0,
        warmups: 0,
        states: Vec::new(),
        hints: Vec::new(),
        written: Vec::new(),
        saved: Vec::new(),
        next_id: 1,
        held: 500_000_000,
    }
}

fn captured(frames: u64, millis: u64, peak: f32, trusted: bool) -> AudioCaptureResult {
    AudioCaptureResult {
        frames_written: frames,
        duration: Duration::from_millis(millis),
        gap_markers: Vec::new(),
        peak_level: level(peak),
        written_peak_level: level(peak),
        peak_is_trustworthy: trusted,
    }
}

impl Harness {
    fn handle(&mut self, intent: HotkeyIntent) -> bool {
        let room = reading(&self.coordinator.noise_floor);
        let (reception, actions) = self.coordinator.handle(intent, room);
        self.run(actions);
        match reception {
            Reception::Accepted => true,
            Reception::Refused => false,
            Reception::MayBegin => {
                let (allowed, actions) = self.coordinator.allow_begin(self.secure);
                self.run(actions);
                if !allowed {
                    return false;
                }
                let id = self.next_id;
                self.next_id += 1;
                let actions = self.coordinator.begin_session(
                    id,
                    format!("folder-{id}"),
                    START,
                    DictationContext::default(),
                    false,
                );
                self.run(actions);
                true
            }
        }
    }

    fn open_microphone(&mut self, id: u128) {
        match self.start_error.take() {
            Some(error) => {
                let actions = self.coordinator.capture_failed(&error);
                self.run(actions);
            }
            None => {
                for x in self.levels.clone() {
                    let actions = self.coordinator.ingest_level(level(x), db(dbfs(x)), true);
                    self.run(actions);
                }
                let actions = self.coordinator.capture_started(id);
                self.run(actions);
            }
        }
    }

    fn run(&mut self, actions: Vec<Action>) {
        for action in actions {
            match action {
                Action::Publish(CoordinatorUpdate::State(state)) => self.states.push(state),
                Action::Publish(CoordinatorUpdate::CoachingHint(hint)) => self.hints.push(hint),
                Action::Publish(_) => {}
                Action::Write { meta, .. } => self.written.push(meta),
                Action::Save { meta, .. } => self.saved.push(meta),
                Action::Discard { .. } => self.discarded += 1,
                Action::WarmConnection => self.warmups += 1,
                Action::StartCapture { id, .. } => {
                    if !self.hold_capture {
                        self.open_microphone(id);
                    }
                }
                Action::AbandonCapture => {}
                Action::StartCapTimers | Action::StopCapTimers | Action::AbortUpload => {}
                Action::FinishCapture { .. } => {
                    let apart = separation(&self.coordinator.noise_floor);
                    let actions = self.coordinator.complete_finalize(
                        self.capture.clone(),
                        START + self.held,
                        apart,
                    );
                    self.run(actions);
                }
                Action::CancelCapture => {
                    let actions =
                        self.coordinator.complete_cancel(Some(self.capture.duration));
                    self.run(actions);
                }
                Action::Upload { id, .. } => {
                    self.calls += 1;
                    let answer = self.response.take().unwrap_or(Ok(TranscriptionResult {
                        raw_transcript: "hello there".into(),
                        cleaned_transcript: "Hello there.".into(),
                        model_id: "test".into(),
                    }));
                    let apart = separation(&self.coordinator.noise_floor);
                    let actions = match answer {
                        Ok(result) => self.coordinator.complete_transcription(id, result),
                        Err(error) => self.coordinator.fail_transcription(id, &error, apart),
                    };
                    self.run(actions);
                }
                Action::Insert { text, .. } => {
                    let actions = self.coordinator.complete_insertion(
                        self.insertion,
                        text,
                        Duration::from_millis(700),
                    );
                    self.run(actions);
                }
            }
        }
    }

    fn last_saved(&self) -> &SessionMeta {
        self.saved.last().unwrap()
    }
}

#[test]
fn a_held_key_runs_the_whole_pipeline() {
    let mut harness = harness();
    assert!(harness.handle(HotkeyIntent::Begin));
    assert!(harness.coordinator.state().is_recording());
    assert_eq!((harness.written.len(), harness.saved.len()), (1, 1));

    harness.handle(HotkeyIntent::Finalize);

    assert_eq!(
        harness.coordinator.state(),
        DictationState::Done(DictationOutcome::Inserted)
    );
    assert_eq!(harness.coordinator.last_result().as_deref(), Some("Hello there."));
    assert_eq!(harness.calls, 1);
    assert_eq!(harness.last_saved().status, SessionStatus::Inserted);
    assert_eq!(harness.last_saved().pipeline_time, Some(Duration::from_millis(700)));
}

#[test]
fn a_password_field_refuses_the_session_so_the_grammar_can_reset() {
    let mut harness = harness();
    harness.secure = true;
    assert!(!harness.handle(HotkeyIntent::Begin));
    assert_eq!(harness.coordinator.state(), DictationState::Idle);
    assert_eq!(harness.hints, vec![Some(PASSWORD_HINT.to_string())]);
}

#[test]
fn a_session_is_on_disk_before_anything_else_happens() {
    let mut harness = harness();
    let actions = harness.coordinator.begin_session(
        7,
        "folder-7".into(),
        START,
        DictationContext { target_app_exe: Some("slack.exe".into()), ..Default::default() },
        false,
    );
    assert_eq!(actions.len(), 6);
    match (&actions[0], &actions[4]) {
        (Action::Write { meta, folder }, Action::Save { meta: mirrored, folder: there }) => {
            for meta in [meta, mirrored] {
                assert_eq!(meta.id, 7);
                assert_eq!(meta.status, SessionStatus::Recording);
                assert_eq!(meta.target_app_exe.as_deref(), Some("slack.exe"));
            }
            assert_eq!(folder, "folder-7");
            assert_eq!(there, "folder-7");
        }
        _ => panic!("the record is written first and mirrored later"),
    }
    assert!(matches!(actions[1], Action::WarmConnection));
    assert!(matches!(
        actions[2],
        Action::Publish(CoordinatorUpdate::State(DictationState::Warming))
    ));
    assert!(matches!(actions[5], Action::StartCapture { id: 7, .. }));
}

#[test]
fn a_second_begin_is_refused_while_a_session_is_live() {
    let mut harness = harness();
    assert!(harness.handle(HotkeyIntent::Begin));
    assert!(!harness.handle(HotkeyIntent::Begin));
}

#[test]
fn a_missing_microphone_is_named_rather_than_blamed_on_the_engine() {
    let mut harness = harness();
    harness.start_error = Some(CaptureError::NoInputDevice);
    harness.handle(HotkeyIntent::Begin);
    assert_eq!(
        harness.coordinator.state(),
        DictationState::Failed(DictationFailure::NoMicrophone)
    );
    // Zero frames captured means no dead-end History row.
    assert_eq!(harness.discarded, 1);
}

#[test]
fn a_blip_with_no_frames_is_silence_not_an_error() {
    let mut harness = harness();
    harness.capture = AudioCaptureResult::empty();
    harness.handle(HotkeyIntent::Begin);
    harness.handle(HotkeyIntent::Finalize);

    assert_eq!(harness.coordinator.state(), DictationState::Done(DictationOutcome::Silent));
    assert_eq!(harness.calls, 0, "never uploaded");
    assert_eq!(harness.discarded, 1);
}

#[test]
fn a_long_hold_with_no_frames_is_a_real_failure() {
    let mut harness = harness();
    harness.held = 5_000_000_000;
    harness.capture = AudioCaptureResult::empty();
    harness.handle(HotkeyIntent::Begin);
    harness.handle(HotkeyIntent::Finalize);
    assert_eq!(
        harness.coordinator.state(),
        DictationState::Failed(DictationFailure::NoAudio)
    );
    assert_eq!(harness.calls, 0);
}

#[test]
fn a_micro_clip_is_classified_locally_and_never_uploaded() {
    let mut harness = harness();
    harness.capture = AudioCaptureResult {
        frames_written: 3_200,
        duration: Duration::from_millis(200),
        ..Default::default()
    };
    harness.handle(HotkeyIntent::Begin);
    harness.handle(HotkeyIntent::Finalize);

    assert_eq!(harness.coordinator.state(), DictationState::Done(DictationOutcome::Silent));
    assert_eq!(harness.calls, 0);
}

#[test]
fn a_muted_mic_is_discarded_before_two_pointless_round_trips() {
    let mut harness = harness();
    harness.capture = captured(32_000, 2_000, 0.001, true);
    // A measured, uniformly dead room: no separation between the loudest
    // sample and the floor.
    harness.levels = vec![0.001; 32];
    harness.handle(HotkeyIntent::Begin);
    harness.handle(HotkeyIntent::Finalize);
    assert_eq!(harness.calls, 0);
}

#[test]
fn a_quiet_voice_in_a_quiet_room_is_uploaded_not_discarded() {
    // The absolute peak is below the silence threshold, but it rose clearly
    // above the room — someone speaking softly, not a dead microphone.
    let mut harness = harness();
    harness.capture = captured(32_000, 2_000, 0.05, true);
    harness.levels = vec![0.0005; 30];
    harness.levels.extend([0.05; 6]);
    harness.handle(HotkeyIntent::Begin);
    harness.handle(HotkeyIntent::Finalize);
    assert_eq!(harness.calls, 1);
}

#[test]
fn an_unmeasured_peak_uploads_rather_than_guessing_silence() {
    let mut harness = harness();
    harness.capture = captured(32_000, 2_000, 0.0, false);
    harness.handle(HotkeyIntent::Begin);
    harness.handle(HotkeyIntent::Finalize);
    assert_eq!(harness.calls, 1);
}

#[test]
fn offline_queues_the_recording_instead_of_failing_it() {
    let mut harness = harness();
    harness.response = Some(Err(TranscriptionError::Offline));
    harness.handle(HotkeyIntent::Begin);
    harness.handle(HotkeyIntent::Finalize);

    assert_eq!(
        harness.coordinator.state(),
        DictationState::Done(DictationOutcome::QueuedForRetry)
    );
    assert_eq!(harness.discarded, 0, "audio kept");
    assert_eq!(harness.last_saved().status, SessionStatus::QueuedForRetry);
}

#[test]
fn a_loud_empty_transcript_is_a_real_failure() {
    let mut harness = harness();
    harness.response = Some(Err(TranscriptionError::EmptyTranscript));
    harness.handle(HotkeyIntent::Begin);
    harness.handle(HotkeyIntent::Finalize);

    assert_eq!(
        harness.coordinator.state(),
        DictationState::Failed(DictationFailure::Validation)
    );
}

#[test]
fn a_quiet_empty_transcript_reads_as_no_speech() {
    let mut harness = harness();
    // Loud enough to upload, quiet enough to be no-speech when the transcript
    // comes back empty.
    harness.capture = captured(32_000, 2_000, 0.05, false);
    harness.response = Some(Err(TranscriptionError::EmptyTranscript));
    harness.handle(HotkeyIntent::Begin);
    harness.handle(HotkeyIntent::Finalize);

    assert_eq!(harness.coordinator.state(), DictationState::Done(DictationOutcome::Silent));
    assert_eq!(harness.coordinator.last_silence_reason(), SilenceReason::NoSpeech);
}

#[test]
fn recording_opens_the_connection_before_there_is_anything_to_send() {
    let mut harness = harness();
    harness.handle(HotkeyIntent::Begin);
    assert_eq!(
        harness.warmups, 1,
        "the TLS handshake belongs in the time the user spends speaking"
    );
}

#[test]
fn a_refused_session_opens_no_connection() {
    // A password field has focus, so there will be no upload to warm for.
    let mut harness = harness();
    harness.secure = true;
    harness.handle(HotkeyIntent::Begin);
    assert_eq!(harness.warmups, 0);
}

#[test]
fn a_short_cancel_leaves_no_trace() {
    let mut harness = harness();
    harness.capture = AudioCaptureResult {
        frames_written: 32_000,
        duration: Duration::from_secs(2),
        ..Default::default()
    };
    harness.handle(HotkeyIntent::Begin);
    harness.handle(HotkeyIntent::Cancel);

    assert_eq!(harness.coordinator.state(), DictationState::Cancelled);
    assert_eq!(harness.discarded, 1);
}

#[test]
fn a_long_cancel_stays_recoverable() {
    let mut harness = harness();
    harness.capture = AudioCaptureResult {
        frames_written: 16_000 * 45,
        duration: Duration::from_secs(45),
        ..Default::default()
    };
    harness.handle(HotkeyIntent::Begin);
    assert_eq!(harness.coordinator.active_session_folder().as_deref(), Some("folder-1"));
    harness.handle(HotkeyIntent::Cancel);

    assert_eq!(harness.discarded, 0);
    assert_eq!(harness.last_saved().status, SessionStatus::Cancelled);
}

#[test]
fn what_is_kept_is_shown_in_history() {
    let shown = |harness: &Harness| {
        DictationRecord::from_meta(harness.last_saved(), "folder-1").is_visible()
    };
    let mut cancelled = harness();
    cancelled.capture = captured(16_000 * 10, 10_000, 0.5, true);
    cancelled.handle(HotkeyIntent::Begin);
    cancelled.handle(HotkeyIntent::Cancel);
    assert!(shown(&cancelled));
    assert_eq!(cancelled.coordinator.active_session_folder(), None);

    for error in [
        TranscriptionError::Offline,
        TranscriptionError::Auth,
        TranscriptionError::RateLimitedDaily,
        TranscriptionError::EmptyTranscript,
        TranscriptionError::BadRequest("no".into()),
    ] {
        let mut failed = harness();
        failed.response = Some(Err(error));
        failed.handle(HotkeyIntent::Begin);
        failed.handle(HotkeyIntent::Finalize);
        assert!(shown(&failed));
        assert_eq!(failed.coordinator.active_session_folder(), None);
    }

    for outcome in [
        InsertionOutcome::Inserted,
        InsertionOutcome::FrontmostChanged,
        InsertionOutcome::FellBackToClipboard,
        InsertionOutcome::BlockedSecureField,
    ] {
        let mut landed = harness();
        landed.insertion = outcome;
        landed.handle(HotkeyIntent::Begin);
        landed.handle(HotkeyIntent::Finalize);
        assert!(shown(&landed));
        assert_eq!(landed.last_saved().display_text(), "Hello there.");
    }
}

#[test]
fn a_short_tap_stops_a_hands_free_session_rather_than_destroying_it() {
    let mut harness = harness();
    harness.handle(HotkeyIntent::Begin);
    harness.handle(HotkeyIntent::LockIn);
    assert_eq!(harness.coordinator.state(), DictationState::Recording { locked: true });

    harness.handle(HotkeyIntent::ShortTapHint);
    assert_eq!(
        harness.coordinator.state(),
        DictationState::Done(DictationOutcome::Inserted)
    );
}

#[test]
fn a_short_tap_that_held_coaches() {
    let mut harness = harness();
    harness.handle(HotkeyIntent::Begin);
    harness.handle(HotkeyIntent::ShortTapHint);
    assert_eq!(harness.coordinator.state(), DictationState::Cancelled);
    assert!(harness.hints.contains(&Some(COACH_TIP.to_string())));
}

#[test]
fn a_lock_arriving_during_warming_is_latched_not_dropped() {
    let mut harness = harness();
    // Begin returns before the engine has started, so this lands in Warming.
    harness.hold_capture = true;
    harness.handle(HotkeyIntent::Begin);
    harness.handle(HotkeyIntent::LockIn);
    harness.open_microphone(1);
    assert_eq!(harness.coordinator.state(), DictationState::Recording { locked: true });
}

#[test]
fn insertion_outcomes_are_recorded_faithfully() {
    for (outcome, expected, status) in [
        (
            InsertionOutcome::FrontmostChanged,
            DictationOutcome::AwaitingChip,
            SessionStatus::AwaitingChip,
        ),
        (
            InsertionOutcome::FellBackToClipboard,
            DictationOutcome::CopiedToClipboard,
            SessionStatus::CopiedToClipboard,
        ),
        (
            InsertionOutcome::BlockedSecureField,
            DictationOutcome::HeldForSecureField,
            SessionStatus::HeldSecure,
        ),
    ] {
        let mut harness = harness();
        harness.insertion = outcome;
        harness.handle(HotkeyIntent::Begin);
        harness.handle(HotkeyIntent::Finalize);

        assert_eq!(harness.coordinator.state(), DictationState::Done(expected));
        assert_eq!(harness.last_saved().status, status);
    }
}

#[test]
fn subscribers_see_every_state_change() {
    let mut harness = harness();
    harness.handle(HotkeyIntent::Begin);
    assert_eq!(harness.states[0], DictationState::Warming);
    assert_eq!(harness.states[1], DictationState::Recording { locked: false });
}

#[test]
fn every_transport_error_maps_onto_the_failure_matrix() {
    let cases = [
        (TranscriptionError::Auth, DictationFailure::Auth, "auth"),
        (TranscriptionError::RateLimitedDaily, DictationFailure::QuotaExhausted, "quota"),
        (
            TranscriptionError::RateLimitedTransient,
            DictationFailure::RateLimited,
            "rate_limit",
        ),
        (TranscriptionError::Timeout, DictationFailure::Timeout, "timeout"),
        (TranscriptionError::SafetyBlocked, DictationFailure::SafetyBlocked, "safety"),
    ];
    for (error, failure, code) in cases {
        let (mapped, mapped_code, _) = classify(&error);
        assert_eq!(mapped, failure);
        assert_eq!(mapped_code, code);
    }
}

#[test]
fn a_gated_model_names_the_model_rather_than_blaming_the_key() {
    let (failure, code, detail) = classify(&TranscriptionError::ModelUnavailable {
        model: "gemini-3.5-transcribe".into(),
        detail: None,
    });
    assert_eq!(failure, DictationFailure::ModelAccess);
    assert_eq!(code, "model");
    assert!(detail.unwrap().contains("gemini-3.5-transcribe"));
}

#[test]
fn the_trailing_threshold_only_ever_rises_above_the_absolute_floor() {
    let mut coordinator = DictationCoordinator::new();
    // Experiment off: always the absolute constant.
    assert_eq!(coordinator.trailing_threshold(None).bits, TRAILING_SPEECH_THRESHOLD);

    // Experiment on but no measurable separation: unchanged.
    coordinator.noise_handling_active = true;
    for _ in 0..40 {
        coordinator.noise_floor.ingest(db(dbfs(0.2)));
    }
    let room = reading(&coordinator.noise_floor);
    assert_eq!(coordinator.trailing_threshold(room).bits, TRAILING_SPEECH_THRESHOLD);

    // A loud room with clear speech separation raises the bar, but never past
    // the relative cap.
    let mut noisy = NoiseFloorEstimator::default();
    for _ in 0..90 {
        noisy.ingest(db(dbfs(0.2)));
    }
    for _ in 0..10 {
        noisy.ingest(db(dbfs(1.0)));
    }
    coordinator.noise_floor = noisy;
    let room = reading(&coordinator.noise_floor);
    let threshold = f32::from_bits(coordinator.trailing_threshold(room).bits);
    assert!(threshold >= f32::from_bits(TRAILING_SPEECH_THRESHOLD));
    assert!(threshold <= f32::from_bits(TRAILING_RELATIVE_CAP));
    assert!(threshold > f32::from_bits(TRAILING_SPEECH_THRESHOLD), "this room raises the bar");
}

#[test]
fn the_last_word_is_waited_for_but_not_forever() {
    let speech = level(0.5);
    let quiet = level(0.01);
    let bar = Level::from_bits(TRAILING_SPEECH_THRESHOLD);
    let mut watch = TrailingWatch::new(Duration::from_millis(0));
    assert!(watch.poll(Duration::from_millis(60), speech, bar));
    assert!(watch.poll(Duration::from_millis(120), quiet, bar));
    assert!(watch.poll(Duration::from_millis(360), quiet, bar));
    assert!(!watch.poll(Duration::from_millis(380), quiet, bar));
    let mut talker = TrailingWatch::new(Duration::from_millis(0));
    assert!(talker.poll(Duration::from_millis(1_499), speech, bar));
    assert!(!talker.poll(Duration::from_millis(1_500), speech, bar));
}

#[test]
fn the_recording_cap_warns_and_then_stops() {
    let mut harness = harness();
    harness.handle(HotkeyIntent::Begin);
    let actions = harness.coordinator.cap_warning_due();
    harness.run(actions);
    assert!(harness.hints.contains(&Some(ONE_MINUTE_LEFT.to_string())));
    let actions = harness.coordinator.cap_reached(None);
    harness.run(actions);
    assert_eq!(
        harness.coordinator.state(),
        DictationState::Done(DictationOutcome::Inserted)
    );
    // With nothing recording, neither does anything.
    assert!(harness.coordinator.cap_warning_due().is_empty());
    assert!(harness.coordinator.cap_reached(None).is_empty());
}

#[test]
fn a_reply_to_a_replaced_session_changes_nothing() {
    let mut harness = harness();
    harness.handle(HotkeyIntent::Begin);
    let before = harness.coordinator.state();
    let actions = harness.coordinator.complete_transcription(
        99,
        TranscriptionResult {
            raw_transcript: "stale".into(),
            cleaned_transcript: "stale".into(),
            model_id: "test".into(),
        },
    );
    assert!(actions.is_empty());
    assert_eq!(harness.coordinator.state(), before);
    assert!(harness
        .coordinator
        .fail_transcription(99, &TranscriptionError::Offline, None)
        .is_empty());
}

#[test]
fn a_disk_that_cannot_hold_the_session_starts_none() {
    let mut harness = harness();
    let (reception, _) = harness.coordinator.handle(HotkeyIntent::Begin, None);
    assert!(matches!(reception, Reception::MayBegin));
    let actions = harness.coordinator.storage_failed();
    harness.run(actions);
    assert_eq!(harness.coordinator.state(), DictationState::Idle);
    assert!(harness.states.is_empty());
    assert!(harness.coordinator.active_session_folder().is_none());
}
