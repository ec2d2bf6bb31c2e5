//! The policy of the global keyboard hook: which keys it reports and which it
//! swallows.
//!
//! Whether to swallow a key must be decided on the spot, inside the hook
//! procedure. `HookState` mirrors what the grammar knows so that the procedure
//! never has to ask anyone.

use vstd::prelude::*;

use crate::hotkey::{HotkeyEvent, HotkeyKey};
use crate::win32::SYNTHETIC_TAG;

verus! {

/// What the hook procedure knows.
#[derive(Debug, Clone, Copy, PartialEq, Eq, Structural)]
pub struct HookState {
    /// The virtual-key code currently bound to dictation.
    pub hotkey_vk: u32,
    /// Whether that key must be swallowed rather than passed on.
    pub suppress_hotkey: bool,
    /// True while a dictation is in flight, so Esc is intercepted only when it
    /// means "cancel" rather than "close this dialog".
    pub session_active: bool,
    /// True while the hotkey is physically held, so Space is swallowed only when
    /// it is the hands-free gesture.
    pub key_held: bool,
}

impl HookState {
    /// No key bound, no session.
    pub fn new() -> (hook: Self)
        ensures
            hook == (HookState {
                hotkey_vk: 0,
                suppress_hotkey: false,
                session_active: false,
                key_held: false,
            }),
    {
        HookState { hotkey_vk: 0, suppress_hotkey: false, session_active: false, key_held: false }
    }
}

pub fn set_hotkey(hook: &mut HookState, key: HotkeyKey)
    ensures
        *final(hook) == (HookState {
            hotkey_vk: key.vk(),
            suppress_hotkey: key.suppressed(),
            ..*old(hook)
        }),
{
    hook.hotkey_vk = key.vk_code();
    hook.suppress_hotkey = key.must_suppress();
}

pub fn set_session_active(hook: &mut HookState, active: bool)
    ensures
        *final(hook) == (HookState { session_active: active, ..*old(hook) }),
{
    hook.session_active = active;
}

pub fn set_key_held(hook: &mut HookState, held: bool)
    ensures
        *final(hook) == (HookState { key_held: held, ..*old(hook) }),
{
    hook.key_held = held;
}

/// What the hook decided about a single key event.
#[derive(Debug, Clone, Copy, PartialEq, Eq, Structural)]
pub struct Decision {
    pub event: Option<HotkeyEvent>,
    pub swallow: bool,
}

impl Decision {
    pub open spec fn ignored() -> Decision {
        Decision { event: None, swallow: false }
    }

    /// Nothing to report, and the application keeps the key.
    pub fn ignore() -> (decision: Self)
        ensures
            decision == Decision::ignored(),
    {
        Decision { event: None, swallow: false }
    }

    /// Report the key and let the application have it.
    pub fn pass(event: HotkeyEvent) -> (decision: Self)
        ensures
            decision == (Decision { event: Some(event), swallow: false }),
    {
        Decision { event: Some(event), swallow: false }
    }

    /// Report the key and keep it from the application.
    pub fn eat(event: HotkeyEvent) -> (decision: Self)
        ensures
            decision == (Decision { event: Some(event), swallow: true }),
    {
        Decision { event: Some(event), swallow: true }
    }
}

pub const VK_ESCAPE: u32 = 0x1B;

pub const VK_SPACE: u32 = 0x20;

pub open spec fn modifier(vk: u32) -> bool {
    ||| 0x10 <= vk <= 0x12
    ||| 0xA0 <= vk <= 0xA5
    ||| vk == 0x5B
    ||| vk == 0x5C
    ||| vk == 0x14
}

/// Bare modifiers are not "another key was typed": holding Shift to capitalise
/// mid-dictation must not read as an accidental chord.
pub fn is_modifier(vk: u32) -> (yes: bool)
    ensures
        yes == modifier(vk),
{
    // Shift, Control and Alt; their sided forms; both Windows keys; Caps Lock.
    (0x10 <= vk && vk <= 0x12) || (0xA0 <= vk && vk <= 0xA5) || vk == 0x5B || vk == 0x5C || vk
        == 0x14
}

pub open spec fn decision(vk: u32, is_down: bool, hook: HookState) -> Decision {
    if vk == hook.hotkey_vk {
        Decision {
            event: Some(
                if is_down {
                    HotkeyEvent::HotkeyDown
                } else {
                    HotkeyEvent::HotkeyUp
                },
            ),
            swallow: hook.suppress_hotkey,
        }
    } else if !is_down {
        Decision::ignored()
    } else if vk == VK_ESCAPE {
        if hook.session_active {
            Decision { event: Some(HotkeyEvent::EscDown), swallow: true }
        } else {
            Decision::ignored()
        }
    } else if vk == VK_SPACE && hook.key_held {
        Decision { event: Some(HotkeyEvent::SpaceLock), swallow: true }
    } else if modifier(vk) {
        Decision::ignored()
    } else {
        Decision { event: Some(HotkeyEvent::OtherKeyDown), swallow: false }
    }
}

/// The whole hook policy.
pub fn classify(vk: u32, is_down: bool, hook: &HookState) -> (made: Decision)
    ensures
        made == decision(vk, is_down, *hook),
{
    if vk == hook.hotkey_vk {
        let event = if is_down {
            HotkeyEvent::HotkeyDown
        } else {
            HotkeyEvent::HotkeyUp
        };
        return if hook.suppress_hotkey {
            // Caps Lock toggles a global state and the Windows key opens the
            // Start menu on release. Either would fire on every dictation.
            Decision::eat(event)
        } else {
            Decision::pass(event)
        };
    }
    if !is_down {
        return Decision::ignore();
    }
    if vk == VK_ESCAPE {
        return if hook.session_active {
            // Only while dictating: otherwise Esc must still close dialogs.
            Decision::eat(HotkeyEvent::EscDown)
        } else {
            Decision::ignore()
        };
    }
    if vk == VK_SPACE && hook.key_held {
        // The hands-free gesture. Swallowed so it does not also type a space.
        return Decision::eat(HotkeyEvent::SpaceLock);
    }
    if is_modifier(vk) {
        return Decision::ignore();
    }
    Decision::pass(HotkeyEvent::OtherKeyDown)
}

pub const WM_KEYDOWN: u32 = 0x0100;

pub const WM_KEYUP: u32 = 0x0101;

pub const WM_SYSKEYDOWN: u32 = 0x0104;

pub const WM_SYSKEYUP: u32 = 0x0105;

/// What the hook procedure does with one raw message.
///
/// Only this program's own synthetic events are ignored: the Ctrl+V of an
/// insertion would otherwise read as an accidental chord. Injected input in
/// general is not, or the key would be inert over Remote Desktop, on the
/// on-screen keyboard and under any remapping tool.
pub fn on_message(message: u32, vk: u32, extra_info: usize, hook: &HookState) -> (made: Decision)
    ensures
        extra_info == SYNTHETIC_TAG ==> made == Decision::ignored(),
        extra_info != SYNTHETIC_TAG && (message == WM_KEYDOWN || message == WM_SYSKEYDOWN) ==> made
            == decision(vk, true, *hook),
        extra_info != SYNTHETIC_TAG && (message == WM_KEYUP || message == WM_SYSKEYUP) ==> made
            == decision(vk, false, *hook),
        message != WM_KEYDOWN && message != WM_SYSKEYDOWN && message != WM_KEYUP && message
            != WM_SYSKEYUP ==> made == Decision::ignored(),
{
    if extra_info == SYNTHETIC_TAG {
        return Decision::ignore();
    }
    let is_down = message == WM_KEYDOWN || message == WM_SYSKEYDOWN;
    let is_up = message == WM_KEYUP || message == WM_SYSKEYUP;
    if !is_down && !is_up {
        return Decision::ignore();
    }
    classify(vk, is_down, hook)
}

/// A swallowed key is always reported: the hook never loses a keystroke.
pub proof fn nothing_swallowed_is_unreported(vk: u32, is_down: bool, hook: HookState)
    ensures
        decision(vk, is_down, hook).swallow ==> decision(vk, is_down, hook).event is Some,
{
}

/// A key that would toggle shift-lock or open the Start menu never reaches the
/// system while it is bound, and the other keys always do.
pub proof fn a_bound_key_does_nothing_else(key: HotkeyKey, is_down: bool, hook: HookState)
    requires
        hook.hotkey_vk == key.vk(),
        hook.suppress_hotkey == key.suppressed(),
    ensures
        decision(key.vk(), is_down, hook).swallow == key.suppressed(),
        decision(key.vk(), is_down, hook).event == Some(
            if is_down {
                HotkeyEvent::HotkeyDown
            } else {
                HotkeyEvent::HotkeyUp
            },
        ),
{
}

/// Outside a dictation, with a plain modifier bound, every key reaches the
/// application.
pub proof fn idle_typing_is_untouched(vk: u32, is_down: bool, hook: HookState)
    requires
        !hook.suppress_hotkey,
        !hook.session_active,
        !hook.key_held,
    ensures
        !decision(vk, is_down, hook).swallow,
{
}

/// The hook reports the bound key in any state, Esc only during a session, Space
/// as a lock only while the key is held, and any other key that is no modifier, on
/// its way down; and nothing else.
pub proof fn what_the_hook_reports(vk: u32, is_down: bool, hook: HookState, made: Decision)
    requires
        call_ensures(classify, (vk, is_down, &hook), made),
    ensures
        vk == hook.hotkey_vk ==> made.event == Some(
            if is_down {
                HotkeyEvent::HotkeyDown
            } else {
                HotkeyEvent::HotkeyUp
            },
        ) && made.swallow == hook.suppress_hotkey,
        vk != hook.hotkey_vk && !is_down ==> made.event is None && !made.swallow,
        vk != hook.hotkey_vk && is_down && vk == 27 ==> (made.swallow <==> hook.session_active) && (
        made.event == Some(HotkeyEvent::EscDown) <==> hook.session_active) && (made.event is None
            <==> !hook.session_active),
        vk != hook.hotkey_vk && is_down && vk == 32 && hook.key_held ==> made.event == Some(
            HotkeyEvent::SpaceLock,
        ) && made.swallow,
        vk != hook.hotkey_vk && is_down && vk == 32 && !hook.key_held ==> made.event == Some(
            HotkeyEvent::OtherKeyDown,
        ) && !made.swallow,
        vk != hook.hotkey_vk && is_down && vk != 27 && vk != 32 ==> !made.swallow && (made.event
            is None <==> modifier(vk)) && (!modifier(vk) ==> made.event == Some(
            HotkeyEvent::OtherKeyDown,
        )),
{
}

/// The modifiers are Shift, Control and Alt, on either side or without one, the two
/// Windows keys and Caps Lock.
pub proof fn the_modifiers(vk: u32)
    ensures
        modifier(vk) <==> vk == 16 || vk == 17 || vk == 18 || vk == 160 || vk == 161 || vk == 162
            || vk == 163 || vk == 164 || vk == 165 || vk == 91 || vk == 92 || vk == 20,
{
}

/// Our own synthetic keys and messages about anything but keys are left alone;
/// every other message is judged by its key, going down or up.
pub proof fn only_our_own_keys_are_ignored(
    message: u32,
    vk: u32,
    extra_info: usize,
    hook: HookState,
    made: Decision,
)
    requires
        call_ensures(on_message, (message, vk, extra_info, &hook), made),
    ensures
        extra_info == SYNTHETIC_TAG ==> made.event is None && !made.swallow,
        extra_info != SYNTHETIC_TAG && vk == hook.hotkey_vk && (message == 0x100 || message
            == 0x104) ==> made.event == Some(HotkeyEvent::HotkeyDown),
        extra_info != SYNTHETIC_TAG && vk == hook.hotkey_vk && (message == 0x101 || message
            == 0x105) ==> made.event == Some(HotkeyEvent::HotkeyUp),
        message != 0x100 && message != 0x101 && message != 0x104 && message != 0x105
            ==> made.event is None && !made.swallow,
{
}

} // verus!
