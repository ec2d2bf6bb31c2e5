use jot::insertion::{may_restore, moved_away, InsertionCoordinator, InsertionOutcome, Report, Request};
use jot::transcription::DictationContext;
use jot::win32::{
    clipboard_bytes, focus_kind, paste_keys, process_image_name, typed_events, ClipboardSnapshot,
    Element, FocusKind, ForegroundApp, EDIT_CONTROL,
};

fn aimed_at(pid: Option<u32>) -> DictationContext {
    DictationContext { target_pid: pid, ..Default::default() }
}

#[test]
fn an_unknown_target_pid_never_reads_as_a_move() {
    // Refusing to paste whenever we cannot prove where we are would put a chip
    // in front of the user on every single dictation.
    assert!(!moved_away(&DictationContext::default(), Some(7)));
    assert!(!moved_away(&DictationContext::default(), None));
}

#[test]
fn a_known_target_pid_is_compared_against_the_foreground() {
    let context = aimed_at(Some(u32::MAX)); // no real process can own this
    // Either the foreground pid is unknown (no move) or it differs (move).
    for foreground in [None, Some(7), Some(42)] {
        assert_eq!(moved_away(&context, foreground), foreground.is_some());
    }
    assert!(!moved_away(&context, Some(u32::MAX)));
}

#[test]
fn foreground_context_prefers_a_window_title_but_falls_back_to_the_exe() {
    let app = ForegroundApp { pid: Some(42), exe: Some("Code.exe".into()), name: None };
    assert_eq!(app.as_context().target_app_name.as_deref(), Some("Code.exe"));

    let named = ForegroundApp { name: Some("main.rs — jot".into()), ..app };
    assert_eq!(named.as_context().target_app_name.as_deref(), Some("main.rs — jot"));
}

#[test]
fn a_short_text_is_typed_into_an_edit_box() {
    let mut ladder = InsertionCoordinator::new();
    assert_eq!(ladder.insert("hello", &aimed_at(Some(3))), Request::QueryFocus);
    assert_eq!(ladder.report(Report::Focus(FocusKind::EditableText)), Request::QueryForeground);
    assert_eq!(ladder.report(Report::Foreground(Some(3))), Request::QueryFocus);
    assert_eq!(ladder.report(Report::Focus(FocusKind::EditableText)), Request::Type);
    assert_eq!(
        ladder.report(Report::Typed(true)),
        Request::Finish { outcome: InsertionOutcome::Inserted, copy: false, restore: None }
    );
}

#[test]
fn a_password_field_blocks_the_text_and_the_clipboard() {
    let mut ladder = InsertionCoordinator::new();
    ladder.insert("hello", &aimed_at(Some(3)));
    assert_eq!(
        ladder.report(Report::Focus(FocusKind::Password)),
        Request::Finish {
            outcome: InsertionOutcome::BlockedSecureField,
            copy: false,
            restore: None
        }
    );
}

#[test]
fn a_password_field_at_the_second_look_blocks_too() {
    let mut ladder = InsertionCoordinator::new();
    ladder.insert("hello", &aimed_at(Some(3)));
    ladder.report(Report::Focus(FocusKind::EditableText));
    assert_eq!(ladder.report(Report::Foreground(Some(3))), Request::QueryFocus);
    assert_eq!(
        ladder.report(Report::Focus(FocusKind::Password)),
        Request::Finish {
            outcome: InsertionOutcome::BlockedSecureField,
            copy: false,
            restore: None
        }
    );
    assert_eq!(
        ladder.report(Report::Foreground(Some(3))),
        Request::Finish {
            outcome: InsertionOutcome::FellBackToClipboard,
            copy: false,
            restore: None
        }
    );
}

#[test]
fn a_moved_foreground_leaves_the_text_on_the_clipboard() {
    let mut ladder = InsertionCoordinator::new();
    ladder.insert("hello", &aimed_at(Some(3)));
    ladder.report(Report::Focus(FocusKind::Unknown));
    assert_eq!(
        ladder.report(Report::Foreground(Some(4))),
        Request::Finish {
            outcome: InsertionOutcome::FrontmostChanged,
            copy: true,
            restore: None
        }
    );
}

#[test]
fn a_long_text_is_pasted_and_the_clipboard_put_back() {
    let long = "x".repeat(241);
    let mut ladder = InsertionCoordinator::new();
    ladder.insert(&long, &aimed_at(Some(3)));
    ladder.report(Report::Focus(FocusKind::EditableText));
    let mut request = ladder.report(Report::Foreground(Some(3)));
    if request == Request::QueryFocus {
        request = ladder.report(Report::Focus(FocusKind::EditableText));
    }
    assert_eq!(request, Request::QueryForeground);
    assert_eq!(ladder.report(Report::Foreground(Some(3))), Request::WriteClipboard);
    assert_eq!(ladder.report(Report::Written(Some(9))), Request::PostPaste);
    assert_eq!(
        ladder.report(Report::Posted(true)),
        Request::Finish { outcome: InsertionOutcome::Inserted, copy: false, restore: Some(9) }
    );
    assert!(may_restore(9, 9, false));
    assert!(!may_restore(9, 10, false));
}

#[test]
fn the_secure_desktop_reads_as_a_password_field() {
    assert_eq!(focus_kind(true, false, None), FocusKind::Password);
    assert_eq!(focus_kind(true, true, None), FocusKind::Unknown);
    assert_eq!(focus_kind(false, false, None), FocusKind::Unknown);
    let edit = Element { is_password: false, control_type: EDIT_CONTROL, has_text: false };
    assert_eq!(focus_kind(true, true, Some(edit)), FocusKind::EditableText);
    let secret = Element { is_password: true, ..edit };
    assert_eq!(focus_kind(true, true, Some(secret)), FocusKind::Password);
}

#[test]
fn an_image_name_is_the_last_part_of_a_path() {
    assert_eq!(process_image_name("C:\\Program Files\\App\\Code.exe"), "Code.exe");
    assert_eq!(process_image_name("Code.exe"), "Code.exe");
}

#[test]
fn typed_text_goes_out_as_utf16_units() {
    let events = typed_events("a😀").unwrap();
    let units: Vec<u16> = events.iter().filter(|e| !e.up).map(|e| e.unit).collect();
    assert_eq!(units, vec![0x61, 0xD83D, 0xDE00]);
    assert_eq!(events.len(), 6);
}

#[test]
fn a_layout_without_a_v_key_cannot_paste() {
    assert!(paste_keys(-1).is_none());
    let keys = paste_keys(0x0056).unwrap();
    assert_eq!(keys.len(), 4);
    assert_eq!(keys[1].vk, 0x56);
}

#[test]
fn clipboard_text_is_utf16_with_an_end() {
    assert_eq!(clipboard_bytes("hi"), vec![0x68, 0, 0x69, 0, 0, 0]);
}

#[test]
fn an_empty_snapshot_is_not_restored() {
    let mut snapshot = ClipboardSnapshot { entries: Vec::new() };
    assert!(snapshot.is_empty());
    snapshot.capture(13, Some(vec![1, 2]));
    assert!(!snapshot.is_empty());
    assert!(!may_restore(1, 1, true));
}
