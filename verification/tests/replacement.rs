use jot::replacement::{apply, propagate_case, replace_found, Rule};

#[test]
fn empty_rules_pass_text_through() {
    assert_eq!(apply(&vec![], "unchanged"), "unchanged");
}

#[test]
fn longest_wrong_form_wins() {
    let rules = vec![Rule::new("gemini", "Gemini"), Rule::new("gemini api", "Gemini API")];
    assert_eq!(apply(&rules, "the gemini api docs"), "the Gemini API docs");
}

#[test]
fn matches_respect_word_boundaries() {
    let rules = vec![Rule::new("cat", "dog")];
    assert_eq!(apply(&rules, "concatenate the cat"), "concatenate the dog");
}

#[test]
fn punctuated_wrong_forms_still_match() {
    // `\b` would never fire on either end of these.
    let rules = vec![Rule::new("c++", "C++"), Rule::new("e.g.", "for example")];
    assert_eq!(apply(&rules, "write c++ code"), "write C++ code");
    assert_eq!(apply(&rules, "e.g. this"), "for example this");
}

#[test]
fn all_caps_propagates_when_the_rule_is_uncased() {
    assert_eq!(propagate_case("HELLO", "goodbye", "hello"), "GOODBYE");
}

#[test]
fn title_case_propagates_when_the_rule_is_uncased() {
    assert_eq!(propagate_case("Hello", "goodbye", "hello"), "Goodbye");
}

#[test]
fn explicit_rule_casing_beats_propagation() {
    assert_eq!(propagate_case("COOPER NETTIES", "gRPC", "cooper netties"), "gRPC");
    // A deliberate lowercase rule must not be undone by ALL-CAPS input.
    assert_eq!(propagate_case("NPM", "npm", "NPM"), "npm");
}

#[test]
fn single_uppercase_letter_is_not_treated_as_all_caps() {
    assert_eq!(propagate_case("A", "b", "a"), "B");
}

#[test]
fn replacements_apply_case_insensitively_across_a_sentence() {
    let rules = vec![Rule::new("cooper netties", "Kubernetes")];
    assert_eq!(
        apply(&rules, "Cooper netties and cooper netties."),
        "Kubernetes and Kubernetes."
    );
}

#[test]
fn multibyte_text_is_not_corrupted() {
    let rules = vec![Rule::new("cafe", "café")];
    assert_eq!(apply(&rules, "a cafe — naïve"), "a café — naïve");
}

#[test]
fn a_match_inside_a_word_is_left_alone() {
    let rule = Rule::new("cat", "dog");
    assert_eq!(replace_found(&rule, "concat cat", &vec![(3, 6), (7, 10)]), "concat dog");
}

#[test]
fn a_rule_without_a_wrong_form_does_nothing() {
    assert_eq!(apply(&vec![Rule::new("", "x")], "as it was"), "as it was");
}
