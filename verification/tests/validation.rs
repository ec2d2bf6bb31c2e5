use jot::validation::{
    content_words, normalize, strip_artifacts, trigram_similarity, validate, Reason,
};

fn ratio(a: &str, b: &str) -> f64 {
    let s = trigram_similarity(a, b);
    s.shared as f64 / s.smaller as f64
}

#[test]
fn strips_code_fences_labels_and_quotes() {
    assert_eq!(strip_artifacts("```\nhello\n```"), "hello");
    assert_eq!(strip_artifacts("```text\nhello\n```"), "hello");
    assert_eq!(strip_artifacts("CLEAN: hello"), "hello");
    assert_eq!(strip_artifacts("\"hello\""), "hello");
}

#[test]
fn faithful_cleanup_is_accepted() {
    let raw = "um so let's meet at 2 actually no 3 on thursday";
    let cleaned = "Let's meet at 3 on Thursday.";
    assert!(validate(raw, cleaned).accepted);
}

#[test]
fn answer_mode_is_rejected() {
    let raw = "can you rewrite this function to use async await";
    let cleaned = "Sure! Here is the rewritten function using async/await syntax.";
    let verdict = validate(raw, cleaned);
    assert!(!verdict.accepted);
}

#[test]
fn a_dictation_that_opens_with_okay_keeps_its_own_opener() {
    let raw = "okay let's see number one actually no number two let's do this";
    let cleaned = "Okay, let's see. Number 2, let's do this.";
    assert!(validate(raw, cleaned).accepted);
}

#[test]
fn ai_self_reference_is_rejected() {
    // Phrased so it does NOT also trip the answer-preamble pattern — this check
    // has to stand on its own.
    let verdict = validate(
        "hello there friend",
        "That question is outside what a language model can do.",
    );
    assert_eq!(verdict.reason.map(|r| r.tag()), Some("ai_selfreference"));
}

#[test]
fn hallucinated_expansion_is_rejected() {
    let raw = "meet at three";
    let cleaned = "Let us meet at 3 o'clock in the afternoon at the usual coffee place downtown.";
    assert!(!validate(raw, cleaned).accepted);
}

#[test]
fn empty_output_on_real_speech_is_rejected() {
    assert_eq!(validate("hello there", "").reason.map(|r| r.tag()), Some("empty_output"));
    assert!(validate("", "").accepted);
}

#[test]
fn self_correction_collapse_survives_the_shrink_bound() {
    let raw = "let's meet at one pm actually no scratch that make it two pm on tuesday";
    let cleaned = "Let's meet at 2 PM on Tuesday.";
    assert!(validate(raw, cleaned).accepted);
}

#[test]
fn spoken_numbers_normalize_before_comparison() {
    assert_eq!(content_words("meet at three"), vec!["meet", "at", "3"]);
}

#[test]
fn trigram_similarity_is_symmetric_enough_and_bounded() {
    assert_eq!(ratio("hello", "hello"), 1.0);
    assert_eq!(ratio("", ""), 1.0);
    assert!(ratio("hello world", "goodbye moon") < 0.3);
}

#[test]
fn it_does_not_matter_which_text_comes_first() {
    assert_eq!(ratio("hello world", "hello moon"), ratio("hello moon", "hello world"));
    assert_eq!(ratio("", "hello"), ratio("hello", ""));
}

#[test]
fn an_expansion_names_its_counts() {
    let verdict = validate("meet at noon", "meet me at the old mill at noon");
    assert_eq!(verdict.reason, Some(Reason::Expansion { clean: 8, raw: 3 }));
}

#[test]
fn a_text_that_lost_nearly_everything_is_rejected() {
    let raw = "the quarterly report is due on friday and the board wants the numbers first";
    let verdict = validate(raw, "Friday.");
    assert_eq!(verdict.reason.map(|r| r.tag()), Some("shrink_ratio"));
}

#[test]
fn a_text_that_says_something_else_is_rejected() {
    let verdict = validate(
        "please send the invoice to accounting before lunch",
        "Kindly wash every window upstairs during autumn weekends",
    );
    assert_eq!(verdict.reason.map(|r| r.tag()), Some("content_divergence"));
}

#[test]
fn normalizing_lowers_letters() {
    assert_eq!(normalize("Meet at THREE"), "meet at 3");
}

#[test]
fn an_unchanged_transcript_is_accepted_unless_it_names_an_ai() {
    for text in [
        "",
        "...",
        "okay",
        "Sure, here is the plan for tomorrow",
        "i can't make it at three",
        "one two three four five six seven",
        "Größe und Straße",
        "as an airline pilot",
    ] {
        let low = text.to_lowercase();
        let named = low.contains("as an ai") || low.contains("language model");
        assert_eq!(validate(text, text).accepted, !named, "{text}");
    }
    let named = "A Language Model wrote this";
    assert_eq!(validate(named, named).reason, Some(Reason::AiSelfReference));
}

#[test]
fn numbers_are_written_as_whole_words_only() {
    assert_eq!(normalize("Someone has Twenty-One"), "someone has 20-1");
    assert_eq!(normalize("tone often weights"), "tone often weights");
    assert_eq!(normalize("one, one_two 5one"), "1, one_two 5one");
    // Letters beyond ASCII belong to words too.
    assert_eq!(normalize("éone one"), "éone 1");
    assert_eq!(normalize("one\u{2014}two"), "1\u{2014}2");
}

#[test]
fn normalizing_twice_changes_nothing_more() {
    for text in ["Someone has Twenty-One", "ONE HUNDRED ten", "", "naïve Ten"] {
        let once = normalize(text);
        assert_eq!(normalize(&once), once);
        assert_eq!(normalize(&text.to_lowercase()), once);
    }
}
