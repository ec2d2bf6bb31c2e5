use jot::autostart::{is_enabled, is_stale, launch_command, removed, repair, set_enabled, Change};
use jot::clock::Duration;
use jot::coordinator::CoordinatorUpdate;
use jot::file_dialog::csv;
use jot::hotkey::{HotkeyEvent, HotkeyIntent, HotkeyKey};
use jot::hotkey_hook::HookState;
use jot::levels::Level;
use jot::pill::PillState;
use jot::shell::{
    follow_hotkey_setting, handle_tray, HotkeyLoop, HudDriver, HudSettings, Screen, TrayTask,
};
use jot::sound::{play, play_transition, Earcon};
use jot::state_machine::{DictationFailure, DictationOutcome, DictationState};
use jot::tray::{
    icon_entry, menu_items, on_message, separator_after, MenuItem, TrayAction, TrayCommand,
    MENU_ORDER, WM_COMMAND, WM_DESTROY, WM_LBUTTONUP, WM_RBUTTONUP, WM_TRAY,
};
use jot::window_shell::{
    bottom_center, overlay_style, WS_EX_NOACTIVATE, WS_EX_TOOLWINDOW, WS_EX_TRANSPARENT,
    WS_EX_WINDOWEDGE,
};

const SETTINGS: HudSettings =
    HudSettings { show_idle_indicator: true, sounds_enabled: true, player_started: true };

#[test]
fn the_command_is_quoted_so_program_files_still_works() {
    let command = launch_command("C:\\Program Files\\Jot\\jot.exe");
    assert!(command.starts_with('"') && command.ends_with('"'), "{command}");
    assert!(command.to_lowercase().contains("jot"), "{command}");
}

#[test]
fn a_missing_entry_is_neither_enabled_nor_stale() {
    // Whatever is stored, these two must agree: nothing stored can never be
    // "stale".
    for stored in [None, Some("\"jot.exe\"".to_string())] {
        for current in [None, Some("\"other.exe\"".to_string())] {
            if !is_enabled(&stored) {
                assert!(!is_stale(&stored, &current));
            }
        }
    }
}

#[test]
fn a_moved_program_repairs_its_own_entry() {
    let old = Some("\"a.exe\"".to_string());
    let new = Some("\"b.exe\"".to_string());
    assert!(is_stale(&old, &new));
    assert_eq!(repair(&old, new.clone()), Some(Change::Write("\"b.exe\"".into())));
    assert_eq!(repair(&new, new.clone()), None);
    assert_eq!(repair(&None, new), None);
}

#[test]
fn autostart_writes_removes_or_fails() {
    let command = Some("\"a.exe\"".to_string());
    assert_eq!(set_enabled(true, command.clone()), Change::Write("\"a.exe\"".into()));
    assert_eq!(set_enabled(false, command), Change::Remove);
    assert_eq!(set_enabled(true, None), Change::Fail);
    // An entry that was never there is as good as removed.
    assert!(removed(false, true));
    assert!(!removed(false, false));
}

#[test]
fn the_default_extension_falls_out_of_the_pattern() {
    assert_eq!(csv().pattern.trim_start_matches("*."), "csv");
    assert_eq!(csv().default_extension(), "csv");
}

#[test]
fn only_the_states_worth_hearing_make_a_sound() {
    // A silent dictation and a queued one are not failures; an alarm for
    // either trains the user to distrust the error earcon.
    for state in [
        DictationState::Done(DictationOutcome::Silent),
        DictationState::Done(DictationOutcome::QueuedForRetry),
        DictationState::Idle,
        DictationState::Recording { locked: false },
    ] {
        assert_eq!(play_transition(state, false, true), None);
        assert_ne!(play_transition(state, true, true), Some(Earcon::Error));
    }
    assert_eq!(
        play_transition(DictationState::Failed(DictationFailure::Network), true, true),
        Some(Earcon::Error)
    );
}

#[test]
fn playing_with_sounds_off_does_nothing_even_before_start() {
    // No thread running and no panic: a muted user must never hit a code path
    // the enabled one does not.
    assert_eq!(play(Earcon::Start, false, false), None);
    assert_eq!(play(Earcon::Start, false, true), None);
    assert_eq!(play(Earcon::Start, true, true), Some(Earcon::Start));
}

#[test]
fn command_ids_round_trip_and_are_unique() {
    let mut seen = std::collections::HashSet::new();
    for command in MENU_ORDER {
        assert!(seen.insert(command.id()), "duplicate id for {command:?}");
        assert_eq!(TrayCommand::from_id(command.id()), Some(command));
    }
    // Id 0 is what `TrackPopupMenu` reports when nothing was chosen.
    assert_eq!(TrayCommand::from_id(0), None);
}

#[test]
fn the_dictation_item_names_what_it_will_do() {
    assert_eq!(TrayCommand::ToggleDictation.label(false), "Start dictation");
    assert_eq!(TrayCommand::ToggleDictation.label(true), "Stop dictation");
}

#[test]
fn quit_is_separated_from_the_rest_of_the_menu() {
    let last = MENU_ORDER[MENU_ORDER.len() - 1];
    assert_eq!(last, TrayCommand::Quit);
    assert!(separator_after(MENU_ORDER[MENU_ORDER.len() - 2]));
}

#[test]
fn the_menu_lists_every_command() {
    let items = menu_items(true);
    let commands = items.iter().filter(|i| matches!(i, MenuItem::Command { .. })).count();
    assert_eq!(commands, MENU_ORDER.len());
    assert_eq!(
        items[0],
        MenuItem::Command {
            id: TrayCommand::ToggleDictation.id(),
            label: "Stop dictation"
        }
    );
}

#[test]
fn tray_messages_become_commands() {
    assert_eq!(on_message(WM_TRAY, 0, WM_RBUTTONUP as u64), TrayAction::ShowMenu);
    assert_eq!(
        on_message(WM_TRAY, 0, WM_LBUTTONUP as u64),
        TrayAction::Emit(TrayCommand::OpenHistory)
    );
    assert_eq!(
        on_message(WM_COMMAND, TrayCommand::Quit.id() as u64, 0),
        TrayAction::Emit(TrayCommand::Quit)
    );
    assert_eq!(on_message(WM_DESTROY, 0, 0), TrayAction::Quit);
    assert_eq!(on_message(0x9999, 0, 0), TrayAction::Default);
}

#[test]
fn the_nearest_icon_size_is_picked() {
    // Two images of one byte each, 16 and 32 pixels wide.
    let mut ico = vec![0, 0, 1, 0, 2, 0];
    for (width, offset) in [(16u8, 38u8), (32, 39)] {
        ico.extend([width, width, 0, 0, 1, 0, 32, 0, 1, 0, 0, 0, offset, 0, 0, 0]);
    }
    ico.extend([b'a', b'b']);
    assert_eq!(icon_entry(&ico, 16), Some(&b"a"[..]));
    assert_eq!(icon_entry(&ico, 30), Some(&b"b"[..]));
    assert_eq!(icon_entry(&[], 16), None);
}

#[test]
fn the_pill_centres_horizontally_and_sits_above_the_taskbar() {
    // A 1920x1080 display with a 40px taskbar.
    let placement = bottom_center(0, 0, 1920, 1040, 600, 96, 16);
    assert_eq!(placement.x, 660);
    assert_eq!(placement.y, 1040 - 96 - 16);
}

#[test]
fn a_secondary_display_to_the_left_gets_negative_coordinates() {
    let placement = bottom_center(-1920, 0, 0, 1080, 600, 96, 16);
    assert_eq!(placement.x, -1260);
}

#[test]
fn a_display_shorter_than_the_hud_still_shows_its_top_edge() {
    let placement = bottom_center(0, 0, 800, 60, 600, 96, 16);
    assert_eq!(placement.y, 0);
}

#[test]
fn an_overlay_never_takes_focus_or_clicks() {
    let style = overlay_style(WS_EX_WINDOWEDGE | 1);
    for bit in [WS_EX_TRANSPARENT, WS_EX_TOOLWINDOW, WS_EX_NOACTIVATE] {
        assert_eq!(style & bit, bit);
    }
    assert_eq!(style & 1, 1);
}

#[test]
fn a_press_shows_and_sounds_at_once() {
    let mut hud = HudDriver::new(true);
    let effects = hud.update(CoordinatorUpdate::State(DictationState::Warming), SETTINGS, 0);
    assert!(effects.repaint);
    assert_eq!(effects.session_active, Some(true));
    assert_eq!(effects.earcon, Some(Earcon::Start));
    assert_eq!(hud.pill.state, PillState::Listening { locked: false });
    let effects = hud.update(
        CoordinatorUpdate::State(DictationState::Recording { locked: false }),
        SETTINGS,
        0,
    );
    assert_eq!(effects.earcon, None);
    assert_eq!(effects.dictating, Some(true));
}

#[test]
fn a_hint_never_covers_a_recording() {
    let mut hud = HudDriver::new(true);
    hud.update(
        CoordinatorUpdate::State(DictationState::Recording { locked: false }),
        SETTINGS,
        0,
    );
    hud.update(CoordinatorUpdate::CoachingHint(Some("tip".into())), SETTINGS, 0);
    assert_eq!(hud.pill.state, PillState::Listening { locked: false });
}

#[test]
fn a_result_is_counted_and_then_the_pill_rests() {
    let mut hud = HudDriver::new(true);
    hud.update(CoordinatorUpdate::Result("one two three".into()), SETTINGS, 0);
    let done = DictationState::Done(DictationOutcome::Inserted);
    let effects = hud.update(CoordinatorUpdate::State(done), SETTINGS, 0);
    assert_eq!(hud.pill.state, PillState::Success { words: 3 });
    assert!(effects.rest_later);
    assert!(hud.rest(done, true));
    assert_eq!(hud.pill.state, PillState::IdleDot);
}

#[test]
fn a_level_moves_the_meter() {
    let mut hud = HudDriver::new(true);
    let level = Level::from_bits(0.25f32.to_bits());
    hud.update(CoordinatorUpdate::MicLevel(level), SETTINGS, 0);
    assert_eq!(hud.pill.level, level);
}

#[test]
fn hiding_the_indicator_takes_effect_at_rest() {
    let mut hud = HudDriver::new(true);
    assert!(hud.setting_changed("showIdleIndicator", DictationState::Idle, false));
    assert_eq!(hud.pill.state, PillState::Hidden);
    assert!(!hud.setting_changed("soundsEnabled", DictationState::Idle, true));
}

#[test]
fn the_key_loop_begins_and_forgets_a_refused_press() {
    let mut grammar = HotkeyLoop::new();
    assert_eq!(grammar.wait(Duration::from_millis(0)), None);
    let intents = grammar.event(HotkeyEvent::HotkeyDown, Duration::from_millis(10), false);
    assert_eq!(intents, vec![HotkeyIntent::Begin]);
    grammar.answered(false);
    let mut hook = HookState::new();
    grammar.mirror(&mut hook);
    let again = grammar.event(HotkeyEvent::HotkeyDown, Duration::from_millis(900), false);
    assert_eq!(again, vec![HotkeyIntent::Begin]);
}

#[test]
fn only_the_hotkey_setting_rebinds_the_hook() {
    let mut hook = HookState::new();
    assert!(!follow_hotkey_setting(&mut hook, "soundsEnabled", HotkeyKey::RightAlt));
    assert!(follow_hotkey_setting(&mut hook, "hotkeyKey", HotkeyKey::RightAlt));
}

#[test]
fn the_tray_toggles_by_what_is_happening() {
    assert_eq!(
        handle_tray(TrayCommand::ToggleDictation, DictationState::Idle),
        TrayTask::BeginLocked
    );
    assert_eq!(
        handle_tray(
            TrayCommand::ToggleDictation,
            DictationState::Recording { locked: true }
        ),
        TrayTask::Finalize
    );
    assert_eq!(
        handle_tray(TrayCommand::OpenSettings, DictationState::Idle),
        TrayTask::Open(Screen::Settings)
    );
    assert_eq!(handle_tray(TrayCommand::Quit, DictationState::Idle), TrayTask::Quit);
}
