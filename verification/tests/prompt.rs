use jot::prompt::{cleanup_prompt, tone_category, ToneCategory, RULES};

#[test]
fn known_apps_map_to_their_tone() {
    assert_eq!(tone_category(Some("OUTLOOK.EXE")), ToneCategory::Email);
    assert_eq!(tone_category(Some("slack.exe")), ToneCategory::WorkChat);
    assert_eq!(tone_category(Some("Code.exe")), ToneCategory::Code);
    assert_eq!(tone_category(Some("notepad.exe")), ToneCategory::Neutral);
    assert_eq!(tone_category(None), ToneCategory::Neutral);
}

#[test]
fn neutral_tone_adds_no_section() {
    let prompt = cleanup_prompt("hello", ToneCategory::Neutral, &vec![], &vec![]);
    assert!(prompt.starts_with(RULES));
    assert!(prompt.ends_with("RAW: hello\nCLEAN:"));
    assert!(!prompt.contains("Tone:"));
}

#[test]
fn vocabulary_and_spellings_are_sanitized_into_single_lines() {
    let vocabulary = vec!["Kuber\nnetes".to_string()];
    let spellings = vec![("cooper\rnetties".to_string(), "Kubernetes".to_string())];
    let prompt = cleanup_prompt("hi", ToneCategory::Code, &vocabulary, &spellings);
    assert!(prompt.contains("Kuber netes"));
    assert!(prompt.contains("\"cooper netties\" means \"Kubernetes\"."));
    assert!(prompt.contains("Technical dictation."));
}

#[test]
fn long_dictionary_terms_are_capped() {
    let long = "x".repeat(200);
    let prompt = cleanup_prompt("hi", ToneCategory::Neutral, &vec![long], &vec![]);
    assert!(prompt.contains(&"x".repeat(60)));
    assert!(!prompt.contains(&"x".repeat(61)));
}
