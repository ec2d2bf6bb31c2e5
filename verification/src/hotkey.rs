//! The hotkey key set and the hold, lock and cancel grammar.

use vstd::prelude::*;

use crate::clock::Duration;

verus! {

/// A bare-modifier dictation key, identified by virtual-key code.
#[derive(Debug, Clone, Copy, PartialEq, Eq, Structural)]
pub enum HotkeyKey {
    RightControl,
    RightAlt,
    RightShift,
    RightWin,
    /// Requires the hook to swallow the key so the shift-lock state never
    /// toggles while dictating.
    CapsLock,
}

impl Default for HotkeyKey {
    /// Right Ctrl: reachable with the right thumb, almost never used bare, and
    /// it carries no toggle state to suppress.
    fn default() -> (key: Self)
        ensures
            key == HotkeyKey::RightControl,
    {
        HotkeyKey::RightControl
    }
}

impl HotkeyKey {
    pub const ALL: [HotkeyKey; 5] = [
        HotkeyKey::RightControl,
        HotkeyKey::RightAlt,
        HotkeyKey::RightShift,
        HotkeyKey::RightWin,
        HotkeyKey::CapsLock,
    ];

    pub open spec fn vk(self) -> u32 {
        match self {
            HotkeyKey::RightControl => 0xA3,
            HotkeyKey::RightAlt => 0xA5,
            HotkeyKey::RightShift => 0xA1,
            HotkeyKey::RightWin => 0x5C,
            HotkeyKey::CapsLock => 0x14,
        }
    }

    /// The virtual-key code as the keyboard hook reports it.
    pub fn vk_code(self) -> (code: u32)
        ensures
            code == self.vk(),
    {
        match self {
            HotkeyKey::RightControl => 0xA3,
            HotkeyKey::RightAlt => 0xA5,
            HotkeyKey::RightShift => 0xA1,
            HotkeyKey::RightWin => 0x5C,
            HotkeyKey::CapsLock => 0x14,
        }
    }

    pub open spec fn suppressed(self) -> bool {
        self is CapsLock || self is RightWin
    }

    /// True when this key must be swallowed by the hook rather than passed on.
    ///
    /// Caps Lock toggles a global state, and Right Win opens the Start menu on
    /// release. The plain modifiers are passed through: swallowing them would
    /// break chords the user still types.
    pub fn must_suppress(self) -> (suppress: bool)
        ensures
            suppress == self.suppressed(),
    {
        matches!(self, HotkeyKey::CapsLock | HotkeyKey::RightWin)
    }

    pub open spec fn label(self) -> Seq<char> {
        match self {
            HotkeyKey::RightControl => "Right Ctrl"@,
            HotkeyKey::RightAlt => "Right Alt"@,
            HotkeyKey::RightShift => "Right Shift"@,
            HotkeyKey::RightWin => "Right Win"@,
            HotkeyKey::CapsLock => "Caps Lock"@,
        }
    }

    pub fn display_name(self) -> (name: &'static str)
        ensures
            name@ == self.label(),
    {
        match self {
            HotkeyKey::RightControl => "Right Ctrl",
            HotkeyKey::RightAlt => "Right Alt",
            HotkeyKey::RightShift => "Right Shift",
            HotkeyKey::RightWin => "Right Win",
            HotkeyKey::CapsLock => "Caps Lock",
        }
    }

    /// The dictation key with this code, if it is one.
    pub fn from_vk(vk: u32) -> (key: Option<Self>)
        ensures
            match key {
                Some(key) => key.vk() == vk,
                None => forall|key: HotkeyKey| key.vk() != vk,
            },
    {
        if vk == 0xA3 {
            Some(HotkeyKey::RightControl)
        } else if vk == 0xA5 {
            Some(HotkeyKey::RightAlt)
        } else if vk == 0xA1 {
            Some(HotkeyKey::RightShift)
        } else if vk == 0x5C {
            Some(HotkeyKey::RightWin)
        } else if vk == 0x14 {
            Some(HotkeyKey::CapsLock)
        } else {
            None
        }
    }
}

/// No two dictation keys share a code, so reading a key's code back gives that
/// key.
pub proof fn key_codes_are_distinct(a: HotkeyKey, b: HotkeyKey)
    ensures
        a.vk() == b.vk() ==> a == b,
{
}

/// What the hotkey layer asks the session coordinator to do.
#[derive(Debug, Clone, Copy, PartialEq, Eq, Structural)]
pub enum HotkeyIntent {
    /// Key went down: start recording now, before classification.
    Begin,
    /// Lock into hands-free recording.
    LockIn,
    /// Hold released, or stop requested while locked: finalize and transcribe.
    Finalize,
    /// Esc: cancel the session.
    Cancel,
    /// Single short tap with no second tap: cancel quietly and coach.
    ShortTapHint,
    /// Another key was typed within the interruption window: cancel silently.
    AbortAccidental,
}

/// Press shorter than this, in nanoseconds, is a tap; at or above is a hold.
pub const HOLD_THRESHOLD: u128 = 300_000_000;

/// Longest gap, in nanoseconds, between the first tap's key-up and the second
/// tap's key-down to count as a double tap.
pub const DOUBLE_TAP_WINDOW: u128 = 500_000_000;

/// A non-hotkey keystroke within this many nanoseconds of session start aborts
/// as accidental.
pub const INTERRUPTION_WINDOW: u128 = 1_000_000_000;

#[derive(Debug, Clone, Copy, PartialEq, Eq, Structural)]
pub enum HotkeyEvent {
    HotkeyDown,
    HotkeyUp,
    EscDown,
    OtherKeyDown,
    /// Space pressed while the hotkey is physically held.
    SpaceLock,
    /// The double-tap window expired (fed back by the timer the caller armed).
    DoubleTapTimeout,
}

#[derive(Debug, Clone, PartialEq, Eq)]
pub struct Effects {
    pub intents: Vec<HotkeyIntent>,
    /// Arm the double-tap timer to fire after this span (`None`: leave as is).
    pub arm_timer: Option<Duration>,
    pub disarm_timer: bool,
}

impl Default for Effects {
    fn default() -> (fx: Self)
        ensures
            fx.intents@ == Seq::<HotkeyIntent>::empty(),
            fx.arm_timer is None,
            !fx.disarm_timer,
    {
        Effects { intents: Vec::new(), arm_timer: None, disarm_timer: false }
    }
}

#[derive(Debug, Clone, Copy, PartialEq, Eq, Structural)]
pub enum Phase {
    Idle,
    /// Key physically down, classification pending (hold or tap).
    Pressed { down_at: Duration, session_start_at: Duration },
    /// First short tap released; waiting for a possible second tap. Still
    /// recording.
    PendingSecondTap { session_start_at: Duration },
    /// Hands-free.
    Locked,
}

/// What one event does to the grammar: the phase and release it leaves behind,
/// and the effects it asks for.
pub struct Step {
    pub phase: Phase,
    pub swallow_next_up: bool,
    pub intents: Seq<HotkeyIntent>,
    pub arm_timer: Option<Duration>,
    pub disarm_timer: bool,
}

impl Step {
    /// Nothing is asked for.
    pub open spec fn quiet(phase: Phase, swallow_next_up: bool) -> Step {
        Step {
            phase,
            swallow_next_up,
            intents: Seq::empty(),
            arm_timer: None,
            disarm_timer: false,
        }
    }

    /// One intent is asked for and the double-tap timer is left alone.
    pub open spec fn asks(phase: Phase, swallow_next_up: bool, intent: HotkeyIntent) -> Step {
        Step {
            phase,
            swallow_next_up,
            intents: seq![intent],
            arm_timer: None,
            disarm_timer: false,
        }
    }

    /// One intent is asked for and the double-tap timer is put away.
    pub open spec fn settles(phase: Phase, swallow_next_up: bool, intent: HotkeyIntent) -> Step {
        Step {
            phase,
            swallow_next_up,
            intents: seq![intent],
            arm_timer: None,
            disarm_timer: true,
        }
    }
}

/// The grammar:
///
/// ```text
///   hold >= 0.3s           -> push-to-talk: key-up finalizes
///   tap, tap (<= 0.5s gap) -> hands-free lock: press again finalizes
///   single tap             -> coaching hint, session quietly cancelled
///   Esc                    -> cancel
///   other key < 1s in      -> accidental chord, silent abort
/// ```
pub open spec fn step(
    phase: Phase,
    swallow_next_up: bool,
    double_tap_lock: bool,
    event: HotkeyEvent,
    now: Duration,
) -> Step {
    match phase {
        Phase::Idle => match event {
            HotkeyEvent::HotkeyDown => Step::asks(
                Phase::Pressed { down_at: now, session_start_at: now },
                false,
                HotkeyIntent::Begin,
            ),
            HotkeyEvent::HotkeyUp => Step::quiet(phase, false),
            _ => Step::quiet(phase, swallow_next_up),
        },
        Phase::Pressed { down_at, session_start_at } => match event {
            HotkeyEvent::HotkeyUp => if swallow_next_up {
                Step::quiet(phase, false)
            } else if now.minus(down_at).nanos >= HOLD_THRESHOLD {
                Step::asks(Phase::Idle, false, HotkeyIntent::Finalize)
            } else if double_tap_lock {
                Step {
                    arm_timer: Some(Duration { nanos: DOUBLE_TAP_WINDOW }),
                    ..Step::quiet(Phase::PendingSecondTap { session_start_at }, false)
                }
            } else {
                Step::asks(Phase::Idle, false, HotkeyIntent::ShortTapHint)
            },
            HotkeyEvent::EscDown => Step::asks(Phase::Idle, true, HotkeyIntent::Cancel),
            HotkeyEvent::OtherKeyDown => if now.minus(session_start_at).nanos
                < INTERRUPTION_WINDOW {
                Step::asks(Phase::Idle, true, HotkeyIntent::AbortAccidental)
            } else {
                Step::quiet(phase, swallow_next_up)
            },
            HotkeyEvent::SpaceLock => Step::asks(Phase::Locked, true, HotkeyIntent::LockIn),
            _ => Step::quiet(phase, swallow_next_up),
        },
        Phase::PendingSecondTap { session_start_at } => match event {
            HotkeyEvent::HotkeyDown => Step::settles(Phase::Locked, true, HotkeyIntent::LockIn),
            HotkeyEvent::DoubleTapTimeout => Step::asks(
                Phase::Idle,
                swallow_next_up,
                HotkeyIntent::ShortTapHint,
            ),
            HotkeyEvent::EscDown => Step::settles(
                Phase::Idle,
                swallow_next_up,
                HotkeyIntent::Cancel,
            ),
            HotkeyEvent::OtherKeyDown => Step::settles(
                Phase::Idle,
                swallow_next_up,
                if now.minus(session_start_at).nanos < INTERRUPTION_WINDOW {
                    HotkeyIntent::AbortAccidental
                } else {
                    HotkeyIntent::Cancel
                },
            ),
            HotkeyEvent::HotkeyUp => Step::quiet(phase, false),
            HotkeyEvent::SpaceLock => Step::quiet(phase, swallow_next_up),
        },
        Phase::Locked => match event {
            HotkeyEvent::HotkeyDown => Step::asks(Phase::Idle, true, HotkeyIntent::Finalize),
            HotkeyEvent::EscDown => Step::asks(
                Phase::Idle,
                swallow_next_up,
                HotkeyIntent::Cancel,
            ),
            HotkeyEvent::HotkeyUp => Step::quiet(phase, false),
            _ => Step::quiet(phase, swallow_next_up),
        },
    }
}

/// The hotkey grammar at run time.
///
/// Recording always starts on the first key-down (`Begin`), so no audio is ever
/// lost while the grammar disambiguates. Between the taps of a double tap the
/// session keeps recording.
///
/// Clock-free: callers pass monotonic readings; timers are returned as effects
/// and fed back in as `DoubleTapTimeout`.
#[derive(Debug)]
pub struct HotkeyProcessor {
    pub phase: Phase,
    /// The next key-up of the hotkey belongs to an already-classified press
    /// (lock stop, cancel, abort) and must be swallowed without effects.
    pub swallow_next_up: bool,
    /// When off, a short tap hints immediately and never arms the double-tap
    /// window.
    pub double_tap_lock_enabled: bool,
}

impl Default for HotkeyProcessor {
    fn default() -> (p: Self)
        ensures
            p.phase == Phase::Idle,
            !p.swallow_next_up,
            !p.double_tap_lock_enabled,
    {
        HotkeyProcessor {
            phase: Phase::Idle,
            swallow_next_up: false,
            double_tap_lock_enabled: false,
        }
    }
}

impl HotkeyProcessor {
    pub fn new() -> (p: Self)
        ensures
            p.phase == Phase::Idle,
            !p.swallow_next_up,
            !p.double_tap_lock_enabled,
    {
        Self::default()
    }

    /// Snap back to idle after the coordinator refuses a begin; otherwise a
    /// Space lock on the phantom session strands the grammar in `Locked` and
    /// silently eats the next dictation attempt.
    pub fn reset(&mut self)
        ensures
            final(self).phase == Phase::Idle,
            !final(self).swallow_next_up,
            final(self).double_tap_lock_enabled == old(self).double_tap_lock_enabled,
    {
        self.phase = Phase::Idle;
        self.swallow_next_up = false;
    }

    /// True while the hotkey is physically down (the Space-lock window).
    pub fn is_key_held(&self) -> (held: bool)
        ensures
            held == (self.phase is Pressed),
    {
        matches!(self.phase, Phase::Pressed { .. })
    }

    /// True whenever a dictation session is in flight from the hotkey's
    /// perspective.
    pub fn is_session_active(&self) -> (active: bool)
        ensures
            active == (self.phase != Phase::Idle),
    {
        !matches!(self.phase, Phase::Idle)
    }

    pub fn handle(&mut self, event: HotkeyEvent, now: Duration) -> (fx: Effects)
        ensures
            ({
                let s = step(
                    old(self).phase,
                    old(self).swallow_next_up,
                    old(self).double_tap_lock_enabled,
                    event,
                    now,
                );
                &&& final(self).phase == s.phase
                &&& final(self).swallow_next_up == s.swallow_next_up
                &&& fx.intents@ == s.intents
                &&& fx.arm_timer == s.arm_timer
                &&& fx.disarm_timer == s.disarm_timer
            }),
            final(self).double_tap_lock_enabled == old(self).double_tap_lock_enabled,
    {
        let mut fx = Effects::default();
        match (self.phase, event) {
            (Phase::Idle, HotkeyEvent::HotkeyDown) => {
                self.phase = Phase::Pressed { down_at: now, session_start_at: now };
                self.swallow_next_up = false;
                fx.intents.push(HotkeyIntent::Begin);
            },
            // Residual up from a press already classified (lock stop, cancel).
            (Phase::Idle, HotkeyEvent::HotkeyUp) => {
                self.swallow_next_up = false;
            },
            (Phase::Idle, _) => {},
            (Phase::Pressed { down_at, session_start_at }, HotkeyEvent::HotkeyUp) => {
                if self.swallow_next_up {
                    self.swallow_next_up = false;
                } else if now.saturating_sub(down_at).nanos >= HOLD_THRESHOLD {
                    self.phase = Phase::Idle;
                    fx.intents.push(HotkeyIntent::Finalize);
                } else if self.double_tap_lock_enabled {
                    self.phase = Phase::PendingSecondTap { session_start_at };
                    fx.arm_timer = Some(Duration { nanos: DOUBLE_TAP_WINDOW });
                } else {
                    self.phase = Phase::Idle;
                    fx.intents.push(HotkeyIntent::ShortTapHint);
                }
            },
            (Phase::Pressed { .. }, HotkeyEvent::EscDown) => {
                self.phase = Phase::Idle;
                self.swallow_next_up = true;
                fx.intents.push(HotkeyIntent::Cancel);
            },
            (Phase::Pressed { session_start_at, .. }, HotkeyEvent::OtherKeyDown) => {
                // After the window the user is deliberately typing mid-hold.
                if now.saturating_sub(session_start_at).nanos < INTERRUPTION_WINDOW {
                    self.phase = Phase::Idle;
                    self.swallow_next_up = true;
                    fx.intents.push(HotkeyIntent::AbortAccidental);
                }
            },
            // The hotkey release that follows belongs to this gesture and must
            // not finalize.
            (Phase::Pressed { .. }, HotkeyEvent::SpaceLock) => {
                self.phase = Phase::Locked;
                self.swallow_next_up = true;
                fx.intents.push(HotkeyIntent::LockIn);
            },
            (Phase::Pressed { .. }, HotkeyEvent::HotkeyDown | HotkeyEvent::DoubleTapTimeout) => {},
            (Phase::PendingSecondTap { .. }, HotkeyEvent::HotkeyDown) => {
                self.phase = Phase::Locked;
                self.swallow_next_up = true;
                fx.intents.push(HotkeyIntent::LockIn);
                fx.disarm_timer = true;
            },
            (Phase::PendingSecondTap { .. }, HotkeyEvent::DoubleTapTimeout) => {
                self.phase = Phase::Idle;
                fx.intents.push(HotkeyIntent::ShortTapHint);
            },
            (Phase::PendingSecondTap { .. }, HotkeyEvent::EscDown) => {
                self.phase = Phase::Idle;
                fx.intents.push(HotkeyIntent::Cancel);
                fx.disarm_timer = true;
            },
            (Phase::PendingSecondTap { session_start_at }, HotkeyEvent::OtherKeyDown) => {
                self.phase = Phase::Idle;
                fx.disarm_timer = true;
                if now.saturating_sub(session_start_at).nanos < INTERRUPTION_WINDOW {
                    fx.intents.push(HotkeyIntent::AbortAccidental);
                } else {
                    fx.intents.push(HotkeyIntent::Cancel);
                }
            },
            (Phase::PendingSecondTap { .. }, HotkeyEvent::HotkeyUp) => {
                self.swallow_next_up = false;
            },
            // Key not held: Space types normally.
            (Phase::PendingSecondTap { .. }, HotkeyEvent::SpaceLock) => {},
            (Phase::Locked, HotkeyEvent::HotkeyDown) => {
                self.phase = Phase::Idle;
                self.swallow_next_up = true;
                fx.intents.push(HotkeyIntent::Finalize);
            },
            (Phase::Locked, HotkeyEvent::EscDown) => {
                self.phase = Phase::Idle;
                fx.intents.push(HotkeyIntent::Cancel);
            },
            (Phase::Locked, HotkeyEvent::HotkeyUp) => {
                self.swallow_next_up = false;
            },
            (
                Phase::Locked,
                HotkeyEvent::OtherKeyDown | HotkeyEvent::DoubleTapTimeout | HotkeyEvent::SpaceLock,
            ) => {},
        }
        assert(fx.intents@ =~= step(
            old(self).phase,
            old(self).swallow_next_up,
            old(self).double_tap_lock_enabled,
            event,
            now,
        ).intents);
        fx
    }
}

/// Recording starts with the key-down and with nothing else: a `Begin` is asked
/// for exactly when the key goes down while idle.
pub proof fn recording_starts_with_the_key_down(
    phase: Phase,
    swallow: bool,
    double_tap: bool,
    event: HotkeyEvent,
    now: Duration,
)
    ensures
        step(phase, swallow, double_tap, event, now).intents.contains(HotkeyIntent::Begin) <==> (
        phase == Phase::Idle && event == HotkeyEvent::HotkeyDown),
{
    let s = step(phase, swallow, double_tap, event, now);
    if phase == Phase::Idle && event == HotkeyEvent::HotkeyDown {
        assert(s.intents[0] == HotkeyIntent::Begin);
    }
}

/// A session that the grammar leaves has always been handed on: going idle from
/// any other phase asks the coordinator for exactly one closing intent.
pub proof fn no_session_is_dropped_silently(
    phase: Phase,
    swallow: bool,
    double_tap: bool,
    event: HotkeyEvent,
    now: Duration,
)
    requires
        phase != Phase::Idle,
        step(phase, swallow, double_tap, event, now).phase == Phase::Idle,
    ensures
        ({
            let intents = step(phase, swallow, double_tap, event, now).intents;
            &&& intents.len() == 1
            &&& intents[0] != HotkeyIntent::Begin
            &&& intents[0] != HotkeyIntent::LockIn
        }),
{
}

/// An event with its time, and the double-tap setting as it was then.
pub struct Input {
    pub event: HotkeyEvent,
    pub at: Duration,
    pub double_tap_lock: bool,
}

/// Where a run of events takes the grammar, and everything it asks for.
pub open spec fn run(phase: Phase, swallow_next_up: bool, inputs: Seq<Input>) -> Step
    decreases inputs.len(),
{
    if inputs.len() == 0 {
        Step::quiet(phase, swallow_next_up)
    } else {
        let before = run(phase, swallow_next_up, inputs.drop_last());
        let last = inputs.last();
        let next = step(
            before.phase,
            before.swallow_next_up,
            last.double_tap_lock,
            last.event,
            last.at,
        );
        Step { intents: before.intents + next.intents, ..next }
    }
}

/// How many sessions are open after a run of intents.
pub open spec fn open_sessions(intents: Seq<HotkeyIntent>) -> int
    decreases intents.len(),
{
    if intents.len() == 0 {
        0
    } else {
        open_sessions(intents.drop_last()) + (match intents.last() {
            HotkeyIntent::Begin => 1int,
            HotkeyIntent::LockIn => 0int,
            _ => -1int,
        })
    }
}

/// Whatever is pressed, and however the setting changes meanwhile, every session
/// that is begun is ended exactly once before the next: one is open when the
/// grammar is in the middle of a gesture, and none when it is idle.
pub proof fn every_session_is_ended_once(swallow_next_up: bool, inputs: Seq<Input>)
    ensures
        ({
            let after = run(Phase::Idle, swallow_next_up, inputs);
            open_sessions(after.intents) == (if after.phase == Phase::Idle {
                0int
            } else {
                1int
            })
        }),
    decreases inputs.len(),
{
    if inputs.len() > 0 {
        every_session_is_ended_once(swallow_next_up, inputs.drop_last());
        let before = run(Phase::Idle, swallow_next_up, inputs.drop_last());
        let last = inputs.last();
        let next = step(
            before.phase,
            before.swallow_next_up,
            last.double_tap_lock,
            last.event,
            last.at,
        );
        if next.intents.len() == 0 {
            assert(before.intents + next.intents =~= before.intents);
        } else {
            let all = before.intents + next.intents;
            assert(all.drop_last() =~= before.intents);
            assert(all.last() == next.intents[0]);
        }
    }
}

/// A release that belongs to an earlier gesture asks for nothing, in any phase,
/// and is swallowed only once.
pub proof fn a_swallowed_release_has_no_effect(
    phase: Phase,
    double_tap: bool,
    now: Duration,
)
    ensures
        ({
            let s = step(phase, true, double_tap, HotkeyEvent::HotkeyUp, now);
            &&& s.intents.len() == 0
            &&& s.phase == phase
            &&& !s.swallow_next_up
        }),
{
}

/// Without the double-tap setting, the only way into hands-free is Space while
/// the key is held, and no timer is ever armed from a phase the setting off can
/// reach.
pub proof fn hands_free_needs_space_when_double_tap_is_off(
    phase: Phase,
    swallow: bool,
    event: HotkeyEvent,
    now: Duration,
)
    requires
        !(phase is PendingSecondTap),
    ensures
        ({
            let s = step(phase, swallow, false, event, now);
            &&& s.arm_timer is None
            &&& !(s.phase is PendingSecondTap)
            &&& s.phase is Locked && !(phase is Locked) ==> phase is Pressed && event
                == HotkeyEvent::SpaceLock
        }),
{
}

/// Hands-free lasts until the key is pressed again, which finishes the session,
/// or Esc, which cancels it. Nothing else touches it.
pub proof fn hands_free_ends_with_the_key_or_esc(
    swallow: bool,
    double_tap: bool,
    event: HotkeyEvent,
    now: Duration,
)
    ensures
        ({
            let s = step(Phase::Locked, swallow, double_tap, event, now);
            match event {
                HotkeyEvent::HotkeyDown => s.intents == seq![HotkeyIntent::Finalize],
                HotkeyEvent::EscDown => s.intents == seq![HotkeyIntent::Cancel],
                _ => s.intents.len() == 0 && s.phase is Locked,
            }
        }),
{
}

/// Esc cancels a session in every phase, and does nothing outside one.
pub proof fn esc_always_cancels(phase: Phase, swallow: bool, double_tap: bool, now: Duration)
    ensures
        ({
            let s = step(phase, swallow, double_tap, HotkeyEvent::EscDown, now);
            &&& s.phase == Phase::Idle
            &&& s.intents == (if phase == Phase::Idle {
                Seq::empty()
            } else {
                seq![HotkeyIntent::Cancel]
            })
        }),
{
}

/// After a reset the next key-down begins a fresh session.
pub proof fn a_reset_grammar_begins_afresh(double_tap: bool, now: Duration)
    ensures
        step(Phase::Idle, false, double_tap, HotkeyEvent::HotkeyDown, now).intents == seq![
            HotkeyIntent::Begin,
        ],
{
}

/// A press that is held for three tenths of a second or longer is push-to-talk,
/// whatever the double-tap setting: its release finishes the session, and that is
/// the end of the gesture.
pub proof fn a_held_key_finalizes_on_release(
    down_at: Duration,
    session_start_at: Duration,
    double_tap: bool,
    now: Duration,
)
    requires
        now.nanos >= down_at.nanos + 300_000_000,
    ensures
        ({
            let s = step(
                Phase::Pressed { down_at, session_start_at },
                false,
                double_tap,
                HotkeyEvent::HotkeyUp,
                now,
            );
            &&& s.intents == seq![HotkeyIntent::Finalize]
            &&& s.phase == Phase::Idle
            &&& !s.swallow_next_up
            &&& s.arm_timer is None
        }),
{
}

/// A press that is let go of sooner is a tap. Without the double-tap setting it is
/// coached at once; with it the session goes on recording, and half a second is
/// given for the second tap.
pub proof fn a_tap_is_never_transcribed(
    down_at: Duration,
    session_start_at: Duration,
    double_tap: bool,
    now: Duration,
)
    requires
        now.nanos < down_at.nanos + 300_000_000,
    ensures
        ({
            let s = step(
                Phase::Pressed { down_at, session_start_at },
                false,
                double_tap,
                HotkeyEvent::HotkeyUp,
                now,
            );
            &&& !s.swallow_next_up
            &&& !s.disarm_timer
            &&& !double_tap ==> {
                &&& s.intents == seq![HotkeyIntent::ShortTapHint]
                &&& s.phase == Phase::Idle
                &&& s.arm_timer is None
            }
            &&& double_tap ==> {
                &&& s.intents.len() == 0
                &&& s.phase == (Phase::PendingSecondTap { session_start_at })
                &&& s.arm_timer matches Some(wait) && wait.nanos == 500_000_000
            }
        }),
{
}

/// The second tap locks the session and puts the timer away; the release that
/// follows belongs to it. If the timer runs out first, the one tap is coached.
pub proof fn a_second_tap_locks_and_a_timeout_coaches(
    session_start_at: Duration,
    swallow: bool,
    double_tap: bool,
    now: Duration,
)
    ensures
        ({
            let phase = Phase::PendingSecondTap { session_start_at };
            let tapped = step(phase, swallow, double_tap, HotkeyEvent::HotkeyDown, now);
            let expired = step(phase, swallow, double_tap, HotkeyEvent::DoubleTapTimeout, now);
            &&& tapped.intents == seq![HotkeyIntent::LockIn]
            &&& tapped.phase == Phase::Locked
            &&& tapped.swallow_next_up
            &&& tapped.disarm_timer
            &&& expired.intents == seq![HotkeyIntent::ShortTapHint]
            &&& expired.phase == Phase::Idle
        }),
{
}

/// Space while the key is held locks the session, and the release that follows
/// asks for nothing.
pub proof fn space_locks_a_held_key(
    down_at: Duration,
    session_start_at: Duration,
    swallow: bool,
    double_tap: bool,
    now: Duration,
    released: Duration,
)
    ensures
        ({
            let s = step(
                Phase::Pressed { down_at, session_start_at },
                swallow,
                double_tap,
                HotkeyEvent::SpaceLock,
                now,
            );
            let up = step(s.phase, s.swallow_next_up, double_tap, HotkeyEvent::HotkeyUp, released);
            &&& s.intents == seq![HotkeyIntent::LockIn]
            &&& up.intents.len() == 0
            &&& up.phase == Phase::Locked
        }),
{
}

/// Another key within a second of the start is an accidental chord. Later, while
/// the key is held, it is the user typing and changes nothing; between two taps it
/// cancels.
pub proof fn another_key_aborts_within_a_second(
    down_at: Duration,
    session_start_at: Duration,
    swallow: bool,
    double_tap: bool,
    now: Duration,
)
    ensures
        ({
            let held = Phase::Pressed { down_at, session_start_at };
            let tapped = Phase::PendingSecondTap { session_start_at };
            let in_hold = step(held, swallow, double_tap, HotkeyEvent::OtherKeyDown, now);
            let in_gap = step(tapped, swallow, double_tap, HotkeyEvent::OtherKeyDown, now);
            &&& now.nanos < session_start_at.nanos + 1_000_000_000 ==> {
                &&& in_hold.intents == seq![HotkeyIntent::AbortAccidental]
                &&& in_hold.phase == Phase::Idle
                &&& in_hold.swallow_next_up
                &&& in_gap.intents == seq![HotkeyIntent::AbortAccidental]
            }
            &&& now.nanos >= session_start_at.nanos + 1_000_000_000 ==> {
                &&& in_hold.intents.len() == 0
                &&& in_hold.phase == held
                &&& in_hold.swallow_next_up == swallow
                &&& in_gap.intents == seq![HotkeyIntent::Cancel]
            }
            &&& in_gap.phase == Phase::Idle
            &&& in_gap.disarm_timer
        }),
{
}

/// While idle, only the key going down does anything; and while the key is down,
/// its repeats do nothing.
pub proof fn idle_keys_and_repeats_do_nothing(
    down_at: Duration,
    session_start_at: Duration,
    swallow: bool,
    double_tap: bool,
    event: HotkeyEvent,
    now: Duration,
)
    ensures
        ({
            let idle = step(Phase::Idle, swallow, double_tap, event, now);
            let held = Phase::Pressed { down_at, session_start_at };
            let repeat = step(held, swallow, double_tap, HotkeyEvent::HotkeyDown, now);
            &&& event != HotkeyEvent::HotkeyDown ==> idle.intents.len() == 0 && idle.phase
                == Phase::Idle && idle.arm_timer is None
            &&& event == HotkeyEvent::HotkeyDown ==> idle.phase == (Phase::Pressed {
                down_at: now,
                session_start_at: now,
            }) && !idle.swallow_next_up
            &&& repeat.intents.len() == 0
            &&& repeat.phase == held
        }),
{
}

/// From idle, an ordinary hold is one dictation: it begins with the key-down and
/// is finished with the release, whatever happened before.
pub proof fn a_hold_is_one_dictation(
    swallow: bool,
    down: Input,
    up: Input,
)
    requires
        down.event == HotkeyEvent::HotkeyDown,
        up.event == HotkeyEvent::HotkeyUp,
        up.at.nanos >= down.at.nanos + 300_000_000,
    ensures
        run(Phase::Idle, swallow, seq![down, up]).intents == seq![
            HotkeyIntent::Begin,
            HotkeyIntent::Finalize,
        ],
        run(Phase::Idle, swallow, seq![down, up]).phase == Phase::Idle,
{
    let inputs = seq![down, up];
    assert(inputs.drop_last() =~= seq![down]);
    assert(inputs.drop_last().drop_last() =~= Seq::<Input>::empty());
    let none = run(Phase::Idle, swallow, Seq::<Input>::empty());
    let first = run(Phase::Idle, swallow, seq![down]);
    assert(seq![down].drop_last() =~= Seq::<Input>::empty());
    assert(first.intents =~= seq![HotkeyIntent::Begin]);
    assert(run(Phase::Idle, swallow, inputs).intents =~= seq![
        HotkeyIntent::Begin,
        HotkeyIntent::Finalize,
    ]);
}

/// The press that ends a hands-free session belongs to it: its release asks for
/// nothing and leaves the grammar idle.
pub proof fn the_press_that_ends_hands_free_is_swallowed(
    swallow: bool,
    double_tap: bool,
    down: Duration,
    up: Duration,
)
    ensures
        ({
            let stop = step(Phase::Locked, swallow, double_tap, HotkeyEvent::HotkeyDown, down);
            let release = step(
                stop.phase,
                stop.swallow_next_up,
                double_tap,
                HotkeyEvent::HotkeyUp,
                up,
            );
            &&& stop.phase == Phase::Idle
            &&& release.intents.len() == 0
            &&& release.phase == Phase::Idle
        }),
{
}

/// The dictation keys by the codes that Windows gives them; Caps Lock and the
/// Windows key, which do something of their own, are kept from the system, and
/// the plain modifiers are not.
pub proof fn the_keys_are_what_windows_calls_them(key: HotkeyKey)
    ensures
        key is RightControl ==> key.vk() == 163 && !key.suppressed(),
        key is RightAlt ==> key.vk() == 165 && !key.suppressed(),
        key is RightShift ==> key.vk() == 161 && !key.suppressed(),
        key is RightWin ==> key.vk() == 92 && key.suppressed(),
        key is CapsLock ==> key.vk() == 20 && key.suppressed(),
{
}

} // verus!
