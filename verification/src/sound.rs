//! Earcons: which change of a session makes which sound.

use vstd::prelude::*;

use crate::state_machine::{DictationOutcome, DictationState};

verus! {

#[derive(Debug, Clone, Copy, PartialEq, Eq, Structural)]
pub enum Earcon {
    Start,
    Stop,
    Success,
    Error,
    Cancel,
    Lock,
    Celebration,
}

/// The sound to send to the player, if sounds are enabled and it has been
/// started. Failing to play one is never an error.
pub fn play(earcon: Earcon, enabled: bool, started: bool) -> (sent: Option<Earcon>)
    ensures
        sent == (if enabled && started {
            Some(earcon)
        } else {
            None
        }),
{
    if enabled && started {
        Some(earcon)
    } else {
        None
    }
}

/// The sound of a state. A silent or queued dictation is not a failure and gets
/// no alarm.
pub open spec fn earcon_of(state: DictationState) -> Option<Earcon> {
    match state {
        DictationState::Warming => Some(Earcon::Start),
        DictationState::Recording { locked } => if locked {
            Some(Earcon::Lock)
        } else {
            None
        },
        DictationState::Finalizing => Some(Earcon::Stop),
        DictationState::Cancelled => Some(Earcon::Cancel),
        DictationState::Failed(_) => Some(Earcon::Error),
        DictationState::Done(outcome) => if outcome is Inserted {
            Some(Earcon::Success)
        } else {
            None
        },
        _ => None,
    }
}

/// The sound to send on entering a state.
pub fn play_transition(state: DictationState, sounds: bool, started: bool) -> (sent: Option<
    Earcon,
>)
    ensures
        sent == (if sounds && started {
            earcon_of(state)
        } else {
            None
        }),
{
    let earcon = match state {
        DictationState::Warming => Earcon::Start,
        DictationState::Recording { locked: true } => Earcon::Lock,
        DictationState::Finalizing => Earcon::Stop,
        DictationState::Cancelled => Earcon::Cancel,
        DictationState::Failed(_) => Earcon::Error,
        DictationState::Done(DictationOutcome::Inserted) => Earcon::Success,
        _ => {
            return None;
        },
    };
    play(earcon, sounds, started)
}

/// Only a failure sounds like one.
pub proof fn the_error_sound_means_a_failure(state: DictationState)
    ensures
        earcon_of(state) == Some(Earcon::Error) <==> state is Failed,
{
}

/// Each change that the user makes or waits for has its sound, and no other has
/// one.
pub proof fn every_sound_has_its_meaning(state: DictationState)
    ensures
        earcon_of(state) == Some(Earcon::Start) <==> state is Warming,
        earcon_of(state) == Some(Earcon::Lock) <==> state == (DictationState::Recording {
            locked: true,
        }),
        earcon_of(state) == Some(Earcon::Stop) <==> state is Finalizing,
        earcon_of(state) == Some(Earcon::Cancel) <==> state is Cancelled,
        earcon_of(state) == Some(Earcon::Success) <==> state == DictationState::Done(
            DictationOutcome::Inserted,
        ),
        state is Idle || state is Transcribing || state is Inserting ==> earcon_of(state) is None,
{
}

/// Nothing is played unless sounds are on and the player runs.
pub proof fn a_muted_player_plays_nothing(
    earcon: Earcon,
    enabled: bool,
    started: bool,
    sent: Option<Earcon>,
)
    requires
        call_ensures(play, (earcon, enabled, started), sent),
    ensures
        sent is Some <==> enabled && started,
        sent is Some ==> sent == Some(earcon),
{
}

} // verus!
