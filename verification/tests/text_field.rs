use jot::text_field::{FieldFace, KeyResult, TextField};

fn field() -> TextField {
    TextField::new()
}

#[test]
fn editing_keeps_the_caret_on_character_boundaries() {
    let mut field = field();
    field.replace(0, 0, "naïve café");
    assert_eq!(field.content(), "naïve café");

    field.delete_backwards();
    assert_eq!(field.content(), "naïve caf");

    let to = field.previous_boundary();
    field.move_caret(to, false);
    let to = field.previous_boundary();
    field.move_caret(to, false);
    field.replace(field.anchor, field.caret, "X");
    assert_eq!(field.content(), "naïve cXaf");
}

#[test]
fn utf16_offsets_round_trip_through_astral_characters() {
    let mut field = field();
    // An emoji is two UTF-16 units and four UTF-8 bytes; the platform counts
    // the former and the text is stored as the latter.
    field.set_content("a😀b");
    let bytes = field.content().len();
    assert_eq!(field.byte_to_utf16(bytes), 4);
    assert_eq!(field.utf16_to_byte(0), 0);
    assert_eq!(field.utf16_to_byte(1), 1);
    assert_eq!(field.utf16_to_byte(3), 5);
    assert_eq!(field.utf16_to_byte(4), 6);
    // Past the end clamps rather than panicking.
    assert_eq!(field.utf16_to_byte(99), bytes);
}

#[test]
fn a_composition_is_marked_then_committed_as_one_edit() {
    let mut field = field();
    // Typing "ni" in a Chinese IME: provisional, and marked.
    field.replace_and_mark_text_in_range(None, "ni", None);
    assert_eq!(field.content(), "ni");
    assert_eq!(field.marked_bytes(), Some((0, 2)));

    // Choosing the candidate replaces the whole composition rather than
    // appending to it.
    field.replace_text_in_range(None, "\u{4f60}");
    assert_eq!(field.content(), "\u{4f60}");
    assert!(field.marked.is_none(), "committed text is not provisional");
    assert_eq!(field.selection(), (3, 3), "caret follows the commit");
}

#[test]
fn the_composition_caret_counts_utf16_units() {
    let mut field = TextField::new();
    field.replace_and_mark_text_in_range(None, "a😀b", Some(3));
    assert_eq!(field.caret, 2);
    field.replace_and_mark_text_in_range(None, "a😀b", Some(2));
    assert_eq!(field.caret, 2);
    field.replace_and_mark_text_in_range(None, "a😀b", Some(1));
    assert_eq!(field.caret, 1);
    field.replace_and_mark_text_in_range(None, "a😀b", Some(9));
    assert_eq!(field.caret, 3);
    field.replace_and_mark_text_in_range(None, "kan", Some(2));
    assert_eq!(field.caret, 2);
}

#[test]
fn an_abandoned_composition_leaves_no_marked_text() {
    let mut field = field();
    field.replace_and_mark_text_in_range(None, "kan", None);
    assert!(field.marked.is_some());
    field.unmark_text();
    assert!(field.marked.is_none());
}

#[test]
fn a_pasted_newline_never_truncates_the_value() {
    let mut field = field();
    // An API key copied out of a web page often carries a trailing newline;
    // losing everything after it would be silent data loss.
    field.replace(0, 0, "AIza-part-one\nAIza-part-two");
    assert_eq!(field.content(), "AIza-part-one AIza-part-two");
}

#[test]
fn a_masked_field_never_renders_its_value() {
    let mut field = field().masked();
    field.set_content("AIzaSyExample");
    let shown = field.rendered(0, 13);
    assert_eq!(shown, "•".repeat(13));
    assert!(!shown.contains("AIza"));
}

#[test]
fn selecting_then_typing_replaces_the_selection() {
    let mut field = field();
    field.set_content("hello world");
    field.move_caret(0, false);
    field.move_caret(5, true);
    assert_eq!(field.selection(), (0, 5));
    field.replace(0, 5, "goodbye");
    assert_eq!(field.content(), "goodbye world");
    assert_eq!(field.selection(), (7, 7));
}

#[test]
fn deleting_past_either_end_is_a_no_op() {
    let mut field = field();
    field.delete_backwards();
    field.delete_forwards();
    assert_eq!(field.content(), "");

    field.replace(0, 0, "ab");
    field.delete_forwards();
    assert_eq!(field.content(), "ab", "caret is already at the end");
    field.move_caret(0, false);
    field.delete_backwards();
    assert_eq!(field.content(), "ab");
}

#[test]
fn taking_the_content_empties_the_field() {
    let mut field = field();
    field.set_content("Kubernetes");
    assert_eq!(field.take_content(), "Kubernetes");
    assert!(field.is_empty());
    assert_eq!(field.selection(), (0, 0));
}

#[test]
fn shortcuts_copy_paste_and_select() {
    let mut field = field();
    field.set_content("words");
    assert_eq!(field.on_control_key("a", None), KeyResult::Changed);
    assert_eq!(field.selection(), (0, 5));
    assert_eq!(field.on_control_key("c", None), KeyResult::Copy("words".into()));
    field.on_control_key("v", Some("new\ntext"));
    assert_eq!(field.content(), "new text");
    assert_eq!(field.on_key_down("enter", false), KeyResult::Submit);
    assert_eq!(field.on_key_down("f13", false), KeyResult::Ignored);
}

#[test]
fn an_empty_field_shows_its_placeholder() {
    let mut field = field();
    assert_eq!(field.face(false), FieldFace::Placeholder);
    field.set_content("ab");
    match field.face(true) {
        FieldFace::Text { runs, .. } => {
            let text: String = runs.iter().map(|run| run.text.clone()).collect();
            assert_eq!(text, "ab");
        }
        other => panic!("{other:?}"),
    }
}

#[test]
fn ranges_are_told_in_utf16() {
    let mut field = field();
    field.set_content("a😀b");
    assert_eq!(field.text_for_range(1, 3).0, "😀");
    assert_eq!(field.text_length_utf16(), 4);
    assert_eq!(field.selected_text_range(), (4, 4));
}
