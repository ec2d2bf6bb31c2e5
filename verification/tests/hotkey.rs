use jot::clock::Duration;
use jot::hotkey::HotkeyEvent as E;
use jot::hotkey::HotkeyIntent as I;
use jot::hotkey::{HotkeyKey, HotkeyProcessor, DOUBLE_TAP_WINDOW};
use jot::hotkey_hook::HookState;
use jot::shell::HotkeyLoop;

fn ms(n: u64) -> Duration {
    Duration::from_millis(n)
}

#[test]
fn hold_then_release_is_push_to_talk() {
    let mut p = HotkeyProcessor::new();
    assert_eq!(p.handle(E::HotkeyDown, ms(0)).intents, vec![I::Begin]);
    assert_eq!(p.handle(E::HotkeyUp, ms(900)).intents, vec![I::Finalize]);
    assert!(!p.is_session_active());
}

#[test]
fn short_tap_coaches_when_double_tap_lock_is_off() {
    let mut p = HotkeyProcessor::new();
    p.handle(E::HotkeyDown, ms(0));
    let fx = p.handle(E::HotkeyUp, ms(100));
    assert_eq!(fx.intents, vec![I::ShortTapHint]);
    assert!(fx.arm_timer.is_none());
}

#[test]
fn double_tap_locks_when_enabled() {
    let mut p = HotkeyProcessor::new();
    p.double_tap_lock_enabled = true;
    p.handle(E::HotkeyDown, ms(0));
    let fx = p.handle(E::HotkeyUp, ms(100));
    assert_eq!(fx.arm_timer, Some(Duration { nanos: DOUBLE_TAP_WINDOW }));
    assert!(fx.intents.is_empty());
    let fx = p.handle(E::HotkeyDown, ms(300));
    assert_eq!(fx.intents, vec![I::LockIn]);
    assert!(fx.disarm_timer);
    // The release belonging to the lock gesture is swallowed.
    assert!(p.handle(E::HotkeyUp, ms(360)).intents.is_empty());
    // Pressing again finalizes.
    assert_eq!(p.handle(E::HotkeyDown, ms(5000)).intents, vec![I::Finalize]);
}

#[test]
fn expired_double_tap_window_coaches() {
    let mut p = HotkeyProcessor::new();
    p.double_tap_lock_enabled = true;
    p.handle(E::HotkeyDown, ms(0));
    p.handle(E::HotkeyUp, ms(100));
    assert_eq!(p.handle(E::DoubleTapTimeout, ms(600)).intents, vec![I::ShortTapHint]);
}

#[test]
fn space_while_holding_locks_and_swallows_the_release() {
    let mut p = HotkeyProcessor::new();
    p.handle(E::HotkeyDown, ms(0));
    assert_eq!(p.handle(E::SpaceLock, ms(120)).intents, vec![I::LockIn]);
    assert!(p.handle(E::HotkeyUp, ms(200)).intents.is_empty());
    assert!(p.is_session_active());
    assert_eq!(p.handle(E::HotkeyDown, ms(4000)).intents, vec![I::Finalize]);
}

#[test]
fn other_key_inside_the_window_aborts_but_outside_it_does_not() {
    let mut p = HotkeyProcessor::new();
    p.handle(E::HotkeyDown, ms(0));
    assert_eq!(p.handle(E::OtherKeyDown, ms(500)).intents, vec![I::AbortAccidental]);

    let mut p = HotkeyProcessor::new();
    p.handle(E::HotkeyDown, ms(0));
    assert!(p.handle(E::OtherKeyDown, ms(1500)).intents.is_empty());
    assert!(p.is_session_active());
}

#[test]
fn esc_cancels_and_swallows_the_trailing_release() {
    let mut p = HotkeyProcessor::new();
    p.handle(E::HotkeyDown, ms(0));
    assert_eq!(p.handle(E::EscDown, ms(200)).intents, vec![I::Cancel]);
    assert!(p.handle(E::HotkeyUp, ms(250)).intents.is_empty());
}

#[test]
fn reset_unsticks_a_locked_phantom_session() {
    let mut p = HotkeyProcessor::new();
    p.handle(E::HotkeyDown, ms(0));
    p.handle(E::SpaceLock, ms(50));
    p.reset();
    assert!(!p.is_session_active());
    assert_eq!(p.handle(E::HotkeyDown, ms(100)).intents, vec![I::Begin]);
}

#[test]
fn key_codes_round_trip() {
    for key in HotkeyKey::ALL {
        assert_eq!(HotkeyKey::from_vk(key.vk_code()), Some(key));
    }
    assert_eq!(HotkeyKey::from_vk(0x41), None);
}

#[test]
fn the_hold_threshold_is_three_tenths_of_a_second() {
    let mut p = HotkeyProcessor::new();
    p.handle(E::HotkeyDown, ms(0));
    assert_eq!(p.handle(E::HotkeyUp, ms(300)).intents, vec![I::Finalize]);
    let mut p = HotkeyProcessor::new();
    p.handle(E::HotkeyDown, ms(0));
    assert_eq!(p.handle(E::HotkeyUp, ms(299)).intents, vec![I::ShortTapHint]);
}

#[test]
fn the_double_tap_window_is_a_deadline_on_the_next_event() {
    let mut grammar = HotkeyLoop::new();
    assert_eq!(grammar.wait(ms(0)), None);
    assert_eq!(grammar.event(E::HotkeyDown, ms(0), true), vec![I::Begin]);
    assert!(grammar.event(E::HotkeyUp, ms(100), true).is_empty());
    assert_eq!(grammar.wait(ms(100)), Some(ms(500)));
    assert_eq!(grammar.wait(ms(700)), Some(ms(0)));
    assert_eq!(grammar.timed_out(ms(700), true), vec![I::ShortTapHint]);
    assert_eq!(grammar.wait(ms(700)), None);
}

#[test]
fn a_second_tap_puts_the_deadline_away() {
    let mut grammar = HotkeyLoop::new();
    grammar.event(E::HotkeyDown, ms(0), true);
    grammar.event(E::HotkeyUp, ms(100), true);
    assert_eq!(grammar.event(E::HotkeyDown, ms(200), true), vec![I::LockIn]);
    assert_eq!(grammar.deadline, None);
}

#[test]
fn a_refused_begin_reaches_the_grammar_and_the_hook() {
    let mut grammar = HotkeyLoop::new();
    let mut hook = HookState::new();
    grammar.event(E::HotkeyDown, ms(0), false);
    grammar.mirror(&mut hook);
    assert!(hook.session_active && hook.key_held);
    grammar.answered(true);
    assert!(grammar.processor.is_session_active());
    grammar.answered(false);
    grammar.mirror(&mut hook);
    assert!(!hook.session_active && !hook.key_held);
}

#[test]
fn however_keys_are_mashed_each_session_ends_once() {
    let keys = [
        E::HotkeyDown,
        E::HotkeyUp,
        E::SpaceLock,
        E::OtherKeyDown,
        E::EscDown,
        E::DoubleTapTimeout,
    ];
    // Every run of six events out of the six there are, a tenth of a second apart.
    for run in 0..6_u32.pow(6) {
        let mut p = HotkeyProcessor::new();
        let mut open = 0;
        let mut rest = run;
        for step in 0..6_u64 {
            p.double_tap_lock_enabled = (run + step as u32) % 3 != 0;
            let fx = p.handle(keys[(rest % 6) as usize], ms(100 * step));
            rest /= 6;
            for intent in fx.intents {
                match intent {
                    I::Begin => open += 1,
                    I::LockIn => {}
                    _ => open -= 1,
                }
            }
            assert_eq!(open, if p.is_session_active() { 1 } else { 0 });
        }
    }
}
