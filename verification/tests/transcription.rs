use jot::clock::Duration;
use jot::dictionary::DictionaryStore;
use jot::gemini::TranscriptionError;
use jot::settings::{FormattingPolicy, GeminiConfig, Settings, SettingsStore};
use jot::transcription::{
    model_id, record_gate_trip, unreadable_recording, DictationContext, GeminiTranscriptionService,
    Job, Next, Suppression,
};

fn key() -> Option<String> {
    Some("AIza".to_string())
}

fn words(term: &str) -> DictionaryStore {
    let mut store = DictionaryStore::new(Vec::new());
    if !term.is_empty() {
        store.add(term, None);
    }
    store
}

fn job(dictionary: &DictionaryStore, settings: &Settings, millis: u64) -> Job {
    GeminiTranscriptionService::new()
        .begin(&key(), settings, dictionary, Duration::from_millis(millis))
        .ok()
        .unwrap()
}

fn refused() -> Result<String, TranscriptionError> {
    Err(TranscriptionError::BadRequest("bad".into()))
}

fn dropped() -> Result<String, TranscriptionError> {
    Err(TranscriptionError::Network("reset".into()))
}

#[test]
fn suppression_is_keyed_on_the_vocabulary_not_a_bare_flag() {
    let mut suppression = Suppression::default();
    let bad = vec!["exploding".to_string()];
    assert!(!suppression.is_blocked(&bad));

    suppression.block(&bad);
    assert!(suppression.is_blocked(&bad));
    // Editing the Dictionary changes the key, so the feature comes back.
    assert!(!suppression.is_blocked(&vec!["exploding".to_string(), "new".to_string()]));
}

#[test]
fn an_empty_vocabulary_is_never_treated_as_suppressed_by_default() {
    let suppression = Suppression::default();
    assert!(!suppression.is_blocked(&vec![]));
}

#[test]
fn model_id_records_the_pipeline_that_produced_the_text() {
    let config = GeminiConfig::default();
    let policy = FormattingPolicy { native_smart: true, cleanup_pass: false };
    assert_eq!(model_id(&config, policy), "gemini-3.5-transcribe/smart");
    let policy = FormattingPolicy { native_smart: false, cleanup_pass: true };
    assert_eq!(
        model_id(&config, policy),
        "gemini-3.5-transcribe/verbatim+gemini-3.5-flash-lite"
    );
}

#[test]
fn without_a_key_nothing_is_sent() {
    let service = GeminiTranscriptionService::new();
    let started = service.begin(
        &Some("  ".to_string()),
        &Settings::default(),
        &words(""),
        Duration::from_secs(1),
    );
    assert_eq!(started.err(), Some(TranscriptionError::Auth));
}

#[test]
fn a_good_reply_is_the_text() {
    let mut job = job(&words(""), &Settings::default(), 1000);
    let (next, blamed) = job.replied(Ok("  hello there \n".into()));
    assert_eq!(next, Next::Finish("hello there".into()));
    assert!(!blamed);
    let result = job.finish(&words(""), "hello there");
    assert_eq!(result.cleaned_transcript, "hello there");
    assert_eq!(result.model_id, "gemini-3.5-transcribe/smart");
}

#[test]
fn a_refused_vocabulary_is_dropped_and_blamed_only_on_success() {
    let dictionary = words("exploding");
    let mut service = GeminiTranscriptionService::new();
    let mut job = job(&dictionary, &Settings::default(), 1000);
    assert_eq!(job.vocabulary, vec!["exploding"]);
    assert_eq!(job.replied(refused()), (Next::Send { with_words: false }, false));
    let (next, blamed) = job.replied(Ok("hello".into()));
    assert_eq!(next, Next::Finish("hello".into()));
    assert!(blamed);
    service.suppression.block(&job.vocabulary);
    assert!(service.vocabulary_if_enabled(&dictionary).is_empty());
    assert_eq!(service.vocabulary_if_enabled(&words("other")), vec!["other"]);
}

#[test]
fn a_bad_key_blames_no_vocabulary() {
    let mut job = job(&words("innocent"), &Settings::default(), 1000);
    job.replied(refused());
    let (next, blamed) = job.replied(refused());
    assert_eq!(next, Next::Fail(TranscriptionError::BadRequest("bad".into())));
    assert!(!blamed);
}

#[test]
fn a_transient_failure_gets_one_silent_retry() {
    let mut job = job(&words("term"), &Settings::default(), 1000);
    assert_eq!(job.replied(dropped()).0, Next::Pause);
    assert_eq!(job.paused(), Next::Send { with_words: true });
    assert_eq!(
        job.replied(dropped()).0,
        Next::Fail(TranscriptionError::Network("reset".into()))
    );
}

#[test]
fn a_timeout_is_retried_and_being_offline_is_not() {
    let mut slow = job(&words(""), &Settings::default(), 1000);
    assert_eq!(slow.replied(Err(TranscriptionError::Timeout)).0, Next::Pause);
    let mut offline = job(&words(""), &Settings::default(), 1000);
    assert_eq!(
        offline.replied(Err(TranscriptionError::Offline)).0,
        Next::Fail(TranscriptionError::Offline)
    );
}

#[test]
fn an_empty_transcript_of_real_audio_gets_a_second_chance() {
    let mut long = job(&words(""), &Settings::default(), 600);
    assert_eq!(long.replied(Ok("  ".into())).0, Next::Send { with_words: false });
    assert_eq!(
        long.replied(dropped()).0,
        Next::Fail(TranscriptionError::EmptyTranscript)
    );
    let mut blip = job(&words(""), &Settings::default(), 599);
    assert_eq!(
        blip.replied(Ok(String::new())).0,
        Next::Fail(TranscriptionError::EmptyTranscript)
    );
}

#[test]
fn the_tone_pass_is_used_only_when_it_is_faithful() {
    let mut settings = Settings::default();
    settings.smart_cleanup_pass = true;
    let mut dictionary = DictionaryStore::new(Vec::new());
    dictionary.add("Thursday", Some("thirsty day"));
    let mut job = job(&dictionary, &settings, 1000);
    let raw = "um so let's meet at 2 actually no 3 on thursday";
    assert_eq!(job.replied(Ok(raw.into())).0, Next::Clean(raw.into()));

    let context = DictationContext {
        target_app_exe: Some("slack.exe".into()),
        ..Default::default()
    };
    let request = job.cleanup_request(&dictionary, &context, raw);
    assert_eq!(request.path, "v1beta/models/gemini-3.5-flash-lite:generateContent");

    let good = "```\nLet's meet at 3 on Thursday.\n```".to_string();
    let (result, rejected) = job.finish_cleaned(&dictionary, raw, Ok(good));
    assert_eq!(result.cleaned_transcript, "Let's meet at 3 on Thursday.");
    assert!(rejected.is_none());

    let answer = "Sure! Here is the rewritten function using async/await syntax.".to_string();
    let (result, rejected) = job.finish_cleaned(&dictionary, raw, Ok(answer));
    assert_eq!(result.cleaned_transcript, raw);
    assert_eq!(rejected.unwrap().reason.map(|r| r.tag()), Some("answer_pattern"));

    let (result, rejected) = job.finish_cleaned(
        &dictionary,
        "meet on thirsty day",
        Err(TranscriptionError::Timeout),
    );
    assert_eq!(result.cleaned_transcript, "meet on Thursday");
    assert_eq!(result.raw_transcript, "meet on thirsty day");
    assert!(rejected.is_none());
}

#[test]
fn the_request_stays_on_its_transport() {
    let mut settings = Settings::default();
    let smart = job(&words("term"), &settings, 1000);
    assert_eq!(smart.request(b"x", true).path, "v1beta/interactions");
    assert_eq!(smart.request(b"x", false).path, "v1beta/interactions");
    settings.legacy_transcribe_endpoint = true;
    let legacy = job(&words("term"), &settings, 1000);
    assert_eq!(
        legacy.request(b"x", true).path,
        "v1beta/models/gemini-3.5-transcribe:generateContent"
    );
    assert_eq!(legacy.deadline, Duration::from_millis(30_250));
}

#[test]
fn three_rejections_in_a_day_turn_the_tone_pass_off() {
    let mut settings = SettingsStore::new(Settings::default());
    settings.set_smart_cleanup_pass(true);
    let now: i128 = 1_700_000_000_000_000_000;
    assert_eq!(record_gate_trip(&mut settings, now), None);
    assert_eq!(record_gate_trip(&mut settings, now), None);
    assert_eq!(record_gate_trip(&mut settings, now), Some("smartFormattingAutoDegraded"));
    assert!(!settings.data.smart_cleanup_pass);
}

#[test]
fn an_unreadable_recording_is_permanent() {
    assert_eq!(
        unreadable_recording("missing"),
        TranscriptionError::BadRequest("unreadable recording: missing".into())
    );
}
