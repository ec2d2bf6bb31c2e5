use jot::hotkey::{HotkeyEvent, HotkeyKey};
use jot::hotkey_hook::{
    classify, on_message, set_hotkey, set_key_held, set_session_active, Decision, HookState,
    VK_ESCAPE, VK_SPACE,
};
use jot::shell::follow_hotkey_setting;
use jot::win32::SYNTHETIC_TAG;

const RIGHT_CTRL: u32 = 0xA3;
const CAPS_LOCK: u32 = 0x14;
const KEY_A: u32 = 0x41;

fn bound(key: HotkeyKey) -> HookState {
    let mut hook = HookState::new();
    set_hotkey(&mut hook, key);
    hook
}

#[test]
fn the_hotkey_is_reported_and_passed_through_when_it_carries_no_state() {
    let hook = bound(HotkeyKey::RightControl);
    assert_eq!(classify(RIGHT_CTRL, true, &hook), Decision::pass(HotkeyEvent::HotkeyDown));
    assert_eq!(classify(RIGHT_CTRL, false, &hook), Decision::pass(HotkeyEvent::HotkeyUp));
}

#[test]
fn caps_lock_is_swallowed_so_it_never_toggles_while_dictating() {
    let hook = bound(HotkeyKey::CapsLock);
    assert_eq!(classify(CAPS_LOCK, true, &hook), Decision::eat(HotkeyEvent::HotkeyDown));
}

#[test]
fn escape_is_only_intercepted_while_a_session_is_live() {
    let mut hook = bound(HotkeyKey::RightControl);
    assert_eq!(classify(VK_ESCAPE, true, &hook), Decision::ignore());

    set_session_active(&mut hook, true);
    assert_eq!(classify(VK_ESCAPE, true, &hook), Decision::eat(HotkeyEvent::EscDown));
}

#[test]
fn space_is_the_lock_gesture_only_while_the_hotkey_is_held() {
    let mut hook = bound(HotkeyKey::RightControl);
    assert_eq!(classify(VK_SPACE, true, &hook), Decision::pass(HotkeyEvent::OtherKeyDown));

    set_key_held(&mut hook, true);
    assert_eq!(classify(VK_SPACE, true, &hook), Decision::eat(HotkeyEvent::SpaceLock));
}

#[test]
fn a_bare_modifier_is_not_an_accidental_chord() {
    let hook = bound(HotkeyKey::RightControl);
    // Holding Shift to capitalise mid-dictation must not cancel it.
    assert_eq!(classify(0x10, true, &hook), Decision::ignore());
    assert_eq!(classify(0xA0, true, &hook), Decision::ignore());
    assert_eq!(classify(KEY_A, true, &hook), Decision::pass(HotkeyEvent::OtherKeyDown));
}

#[test]
fn key_releases_other_than_the_hotkey_are_not_events() {
    let hook = bound(HotkeyKey::RightControl);
    assert_eq!(classify(KEY_A, false, &hook), Decision::ignore());
    assert_eq!(classify(VK_SPACE, false, &hook), Decision::ignore());
}

#[test]
fn nothing_the_hook_swallows_is_ever_left_unreported() {
    let mut hook = bound(HotkeyKey::CapsLock);
    set_session_active(&mut hook, true);
    set_key_held(&mut hook, true);
    for vk in [CAPS_LOCK, VK_ESCAPE, VK_SPACE] {
        let decision = classify(vk, true, &hook);
        if decision.swallow {
            assert!(
                decision.event.is_some(),
                "a swallowed key that reports nothing is a keystroke the user lost"
            );
        }
    }
}

#[test]
fn our_own_keystrokes_are_not_reported() {
    let hook = bound(HotkeyKey::RightControl);
    assert_eq!(on_message(0x0100, KEY_A, SYNTHETIC_TAG, &hook), Decision::ignore());
    assert_eq!(
        on_message(0x0100, KEY_A, 0, &hook),
        Decision::pass(HotkeyEvent::OtherKeyDown)
    );
    assert_eq!(on_message(0x0200, KEY_A, 0, &hook), Decision::ignore());
    assert!(SYNTHETIC_TAG > 0xFFFF);
}

#[test]
fn a_changed_key_rebinds_the_hook() {
    let mut hook = bound(HotkeyKey::RightControl);
    assert!(!follow_hotkey_setting(&mut hook, "soundsEnabled", HotkeyKey::CapsLock));
    assert_eq!(hook.hotkey_vk, RIGHT_CTRL);
    assert!(follow_hotkey_setting(&mut hook, "hotkeyKey", HotkeyKey::CapsLock));
    assert_eq!(hook.hotkey_vk, CAPS_LOCK);
    assert!(hook.suppress_hotkey);
}
