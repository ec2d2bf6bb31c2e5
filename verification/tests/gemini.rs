use jot::gemini::{
    cleanup, error_message, extract_interaction_text, extract_text, is_daily_quota, judge_answer,
    key_check_url, map_interaction_status, model_url, no_answer, read_answer, read_reply,
    retry_delay_seconds, transcribe, transcribe_interaction, transcription_config, url,
    validate_key, Addressee, Answer, KeyCheck, ModelSearch, ModelStep, RetryHint, Seconds, Silence,
    TranscriptionError,
};
use jot::json::{parse, Json};
use jot::settings::TranscriptionMode;

fn text(s: &str) -> Json {
    Json::Text(s.to_string())
}

fn object(fields: Vec<(&str, Json)>) -> Json {
    Json::Object(fields.into_iter().map(|(k, v)| (k.to_string(), v)).collect())
}

fn seconds(s: f64) -> Seconds {
    let bits = s.to_bits() as i64;
    Seconds { key: bits ^ (((bits >> 63) as u64) >> 1) as i64 }
}

fn to(model: &str, in_path: bool) -> Addressee {
    Addressee { model: model.to_string(), model_is_in_path: in_path }
}

#[test]
fn generate_content_text_is_joined_across_parts() {
    let body = br#"{"candidates":[{"content":{"parts":[{"text":"hello "},{"text":"there"}]}}]}"#;
    assert_eq!(extract_text(body).unwrap(), "hello there");
}

#[test]
fn an_empty_transcript_is_text_not_an_error() {
    // The coordinator classifies silence by audio energy; failing here would
    // route a quiet dictation into the failure path.
    let body = br#"{"candidates":[{"content":{"parts":[]}}]}"#;
    assert_eq!(extract_text(body).unwrap(), "");
}

#[test]
fn safety_blocks_are_recognised_on_both_shapes() {
    let feedback = br#"{"promptFeedback":{"blockReason":"SAFETY"}}"#;
    assert_eq!(extract_text(feedback), Err(TranscriptionError::SafetyBlocked));
    let finish = br#"{"candidates":[{"finishReason":"SAFETY"}]}"#;
    assert_eq!(extract_text(finish), Err(TranscriptionError::SafetyBlocked));
}

#[test]
fn unparseable_responses_stay_retryable() {
    assert_eq!(
        extract_text(b"<html>502</html>"),
        Err(TranscriptionError::Network("unparseable_response".into()))
    );
}

#[test]
fn interaction_text_reads_only_model_output_steps() {
    let body = br#"{"status":"completed","steps":[
            {"type":"thought","content":[{"type":"text","text":"ignored"}]},
            {"type":"model_output","content":[{"type":"text","text":"kept"}]}]}"#;
    assert_eq!(extract_interaction_text(body).unwrap(), "kept");
}

#[test]
fn unknown_interaction_statuses_stay_retryable() {
    let body = br#"{"status":"queued"}"#;
    assert_eq!(
        extract_interaction_text(body),
        Err(TranscriptionError::Network("interaction_status_queued".into()))
    );
}

#[test]
fn a_safety_worded_interaction_failure_maps_to_safety_blocked() {
    let json = parse(br#"{"error":{"message":"Blocked by safety filters"}}"#).unwrap();
    assert_eq!(map_interaction_status("failed", &json), TranscriptionError::SafetyBlocked);
}

#[test]
fn verbatim_omits_the_config_entirely_unless_vocabulary_is_present() {
    assert_eq!(transcription_config(TranscriptionMode::Verbatim, &vec![]), None);
    let with_terms =
        transcription_config(TranscriptionMode::Verbatim, &vec!["gRPC".into()]).unwrap();
    assert_eq!(
        with_terms,
        object(vec![("custom_vocabulary", Json::Array(vec![text("gRPC")]))])
    );
    assert!(with_terms.get("mode").is_none());
}

#[test]
fn smart_mode_never_carries_language_codes() {
    // Pinning this: `language_codes` silently disables smart mode with a 200.
    let config = transcription_config(TranscriptionMode::Smart, &vec!["gRPC".into()]).unwrap();
    assert_eq!(config.get_str("mode"), Some("smart"));
    assert!(config.get("language_codes").is_none());
}

#[test]
fn retry_delay_prefers_the_header_then_falls_back_to_the_body() {
    assert_eq!(
        retry_delay_seconds(b"{}", Some(seconds(2.0))),
        RetryHint::Given(seconds(2.0))
    );
    let hint = retry_delay_seconds(br#"{"error":{"details":[{"retryDelay":"3.5s"}]}}"#, None);
    assert_eq!(hint, RetryHint::Written("3.5".into()));
    assert_eq!("3.5".parse::<f64>().ok(), Some(3.5));
    assert_eq!(retry_delay_seconds(b"{}", None), RetryHint::Absent);
}

#[test]
fn only_a_per_day_quota_id_reads_as_terminal() {
    assert!(is_daily_quota(
        br#"{"error":{"details":[{"quotaId":"GenerateRequestsPerDay"}]}}"#
    ));
    assert!(!is_daily_quota(
        br#"{"error":{"details":[{"quotaId":"GenerateRequestsPerMinute"}]}}"#
    ));
    assert!(!is_daily_quota(b"not json at all"));
}

#[test]
fn error_messages_survive_the_array_wrapped_envelope() {
    assert_eq!(
        error_message(br#"{"error":{"message":"API key not valid"}}"#).as_deref(),
        Some("API key not valid")
    );
    assert_eq!(
        error_message(br#"[{"error":{"message":"API key not valid"}}]"#).as_deref(),
        Some("API key not valid")
    );
    assert_eq!(error_message(br#"{"code":"not_found"}"#), None);
}

#[test]
fn a_reply_is_read_as_its_endpoint_writes_it() {
    let generated = br#"{"candidates":[{"content":{"parts":[{"text":"hello"}]}}]}"#;
    let interaction = br#"{"status":"completed","steps":[
            {"type":"model_output","content":[{"type":"text","text":"hi"}]}]}"#;
    let (in_path, in_body) = (to("m", true), to("m", false));
    assert_eq!(read_reply(&in_path, generated).unwrap(), "hello");
    assert_eq!(read_reply(&in_body, interaction).unwrap(), "hi");
    assert_eq!(read_reply(&in_path, interaction), extract_text(interaction));
    assert!(read_reply(&in_path, interaction).is_err());
    assert_eq!(read_reply(&in_body, generated), extract_interaction_text(generated));
    assert_ne!(read_reply(&in_body, generated), Ok("hello".to_string()));
}

#[test]
fn a_number_is_written_anew() {
    let json = parse(b"[1e2, 1.50, 7]").unwrap();
    let numbers = ["100.0", "1.5", "7"].map(|n| Json::Number(n.into()));
    assert_eq!(json, Json::Array(numbers.into()));
}

#[test]
fn a_reply_keeps_its_shape() {
    let json = parse(br#"{"b":[1.5,true,null,"x"],"a":{"c":-2}}"#).unwrap();
    let items = json.get_array("b").unwrap();
    assert_eq!(items.len(), 4);
    assert_eq!(items[0], Json::Number("1.5".into()));
    assert_eq!(items[1], Json::Bool(true));
    assert_eq!(items[2], Json::Null);
    assert_eq!(items[3].as_str(), Some("x"));
    assert_eq!(json.get_within("a", "c"), Some(&Json::Number("-2".into())));
    assert!(json.get("d").is_none());
    assert!(parse(b"{").is_none());
}

#[test]
fn no_candidates_and_no_steps_are_named() {
    assert_eq!(extract_text(b"{}"), Err(TranscriptionError::Network("no_candidates".into())));
    assert_eq!(
        extract_interaction_text(br#"{"status":"completed"}"#),
        Err(TranscriptionError::Network("no_steps".into()))
    );
    assert_eq!(
        extract_interaction_text(b"{}"),
        Err(TranscriptionError::Network("interaction_status_missing".into()))
    );
    assert_eq!(
        extract_interaction_text(br#"{"status":"error"}"#),
        Err(TranscriptionError::Network("interaction_failed".into()))
    );
}

#[test]
fn every_status_has_one_answer() {
    let model = to("m", true);
    let failed = |status: u16, body: &[u8]| match read_answer(status, body, &model, false, None) {
        Answer::Failed(error) => error,
        other => panic!("{other:?}"),
    };
    assert_eq!(read_answer(200, b"", &model, false, None), Answer::Data);
    assert_eq!(failed(401, b""), TranscriptionError::Auth);
    assert_eq!(
        failed(404, br#"{"error":{"message":"gone"}}"#),
        TranscriptionError::ModelUnavailable { model: "m".into(), detail: Some("gone".into()) }
    );
    assert_eq!(failed(429, b""), TranscriptionError::RateLimitedTransient);
    assert_eq!(
        failed(429, br#"{"quotaId":"XPerDayY"}"#),
        TranscriptionError::RateLimitedDaily
    );
    assert_eq!(failed(400, b""), TranscriptionError::BadRequest("http_400".into()));
    assert_eq!(
        failed(400, br#"{"error":{"message":"bad"}}"#),
        TranscriptionError::BadRequest("bad".into())
    );
    assert_eq!(failed(503, b""), TranscriptionError::Network("http_503".into()));
    assert_eq!(failed(302, b""), TranscriptionError::Network("http_302".into()));
    assert_eq!(
        read_answer(403, b"", &to("m", false), false, None),
        Answer::Failed(TranscriptionError::Network("interactions_unavailable_403".into()))
    );
}

#[test]
fn a_short_throttle_is_waited_out_once() {
    let model = to("m", true);
    let throttled = |retried: bool, delay: Option<f64>| {
        judge_answer(429, None, false, &model, retried, delay.map(seconds))
    };
    assert_eq!(throttled(false, Some(2.0)), Answer::Wait);
    assert_eq!(throttled(false, Some(8.0)), Answer::Wait);
    let limited = Answer::Failed(TranscriptionError::RateLimitedTransient);
    assert_eq!(throttled(false, Some(8.000001)), limited);
    assert_eq!(throttled(true, Some(2.0)), limited);
    assert_eq!(throttled(false, None), limited);
}

#[test]
fn no_answer_is_a_timeout_or_a_broken_line() {
    assert_eq!(no_answer(Silence::TimedOut), TranscriptionError::Timeout);
    assert_eq!(no_answer(Silence::Unconnected), TranscriptionError::Offline);
    assert_eq!(
        no_answer(Silence::Broken("reset".into())),
        TranscriptionError::Network("reset".into())
    );
}

#[test]
fn a_key_is_rejected_only_by_an_answer() {
    assert_eq!(validate_key(None, b""), KeyCheck::Unreachable);
    assert_eq!(validate_key(Some(503), b""), KeyCheck::Unreachable);
    assert_eq!(validate_key(Some(200), b""), KeyCheck::Valid);
    assert_eq!(
        validate_key(Some(400), br#"{"error":{"message":"API key not valid"}}"#),
        KeyCheck::Rejected(Some("API key not valid".into()))
    );
    assert_eq!(validate_key(Some(418), b""), KeyCheck::Rejected(None));
}

#[test]
fn the_first_model_that_answers_is_the_one() {
    let mut search = ModelSearch::new(vec!["a".into(), "b".into()]);
    assert_eq!(search.ask(), ModelStep::Ask("a".into()));
    assert_eq!(search.hear(Some(404)), ModelStep::Ask("b".into()));
    assert_eq!(search.hear(Some(200)), ModelStep::Found("b".into()));
    let mut search = ModelSearch::new(vec!["a".into()]);
    assert_eq!(search.hear(None), ModelStep::Nothing);
    assert_eq!(ModelSearch::new(vec![]).ask(), ModelStep::Nothing);
}

#[test]
fn a_recording_travels_as_base64() {
    let request = transcribe(b"foob", "audio/wav", "m", &vec![]);
    assert_eq!(request.path, "v1beta/models/m:generateContent");
    let contents = request.body.get_array("contents").unwrap();
    let parts = contents[0].get_array("parts").unwrap();
    let sound = parts[0].get("inline_data").unwrap();
    assert_eq!(sound.get_str("data"), Some("Zm9vYg=="));
    assert_eq!(sound.get_str("mime_type"), Some("audio/wav"));
    let settings = request.body.get_within("generationConfig", "audioTranscriptionConfig").unwrap();
    assert_eq!(settings.get("wordTimestamp"), Some(&Json::Bool(true)));
    assert!(settings.get("customVocabulary").is_none());
}

#[test]
fn an_interaction_names_its_model_in_the_body() {
    let words = vec!["gRPC".to_string()];
    let request =
        transcribe_interaction(b"abc", "audio/wav", "m", TranscriptionMode::Smart, &words);
    assert_eq!(request.path, "v1beta/interactions");
    assert!(!request.to.model_is_in_path);
    assert_eq!(request.body.get_str("model"), Some("m"));
    let input = request.body.get_array("input").unwrap();
    assert_eq!(input[0].get_str("data"), Some("YWJj"));
    let config = request.body.get_within("generation_config", "transcription_config").unwrap();
    assert_eq!(config.get_str("mode"), Some("smart"));
    let plain =
        transcribe_interaction(b"", "audio/wav", "m", TranscriptionMode::Verbatim, &vec![]);
    assert!(plain.body.get("generation_config").is_none());
}

#[test]
fn the_thinking_knob_differs_by_generation() {
    let old = cleanup("p", "gemini-2.5-flash");
    let thinking = old.body.get_within("generationConfig", "thinkingConfig").unwrap();
    assert_eq!(thinking.get("thinkingBudget"), Some(&Json::Number("0".into())));
    let new = cleanup("p", "gemini-3.5-flash-lite");
    let thinking = new.body.get_within("generationConfig", "thinkingConfig").unwrap();
    assert_eq!(thinking.get_str("thinkingLevel"), Some("low"));
}

#[test]
fn addresses_are_built_from_the_endpoint() {
    assert_eq!(url("https://x", "v1beta/interactions"), "https://x/v1beta/interactions");
    assert_eq!(key_check_url("https://x"), "https://x/v1beta/models?pageSize=1");
    assert_eq!(model_url("https://x", "m"), "https://x/v1beta/models/m");
}

#[test]
fn every_error_has_words() {
    assert_eq!(TranscriptionError::Offline.message(), "offline");
    assert_eq!(TranscriptionError::Network("x".into()).message(), "network: x");
    assert_eq!(TranscriptionError::BadRequest("x".into()).message(), "bad request: x");
    assert_eq!(TranscriptionError::Auth.message(), "API key rejected");
    let gated = TranscriptionError::ModelUnavailable { model: "m".into(), detail: None };
    assert_eq!(gated.message(), "model m not accessible");
    assert_eq!(TranscriptionError::RateLimitedDaily.message(), "daily quota exhausted");
    assert_eq!(TranscriptionError::RateLimitedTransient.message(), "rate limited");
    assert_eq!(TranscriptionError::Timeout.message(), "timed out");
    assert_eq!(TranscriptionError::EmptyTranscript.message(), "empty transcript");
    assert_eq!(TranscriptionError::SafetyBlocked.message(), "blocked by safety filters");
}
