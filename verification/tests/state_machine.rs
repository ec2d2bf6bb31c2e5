use jot::state_machine::DictationEvent as E;
use jot::state_machine::DictationState as S;
use jot::state_machine::{transition, DictationFailure, DictationOutcome};

#[test]
fn hold_release_runs_the_happy_path() {
    let s = transition(S::Idle, E::HotkeyBegin).unwrap();
    assert_eq!(s, S::Warming);
    let s = transition(s, E::EngineStarted).unwrap();
    assert_eq!(s, S::Recording { locked: false });
    let s = transition(s, E::Finalize).unwrap();
    assert_eq!(s, S::Finalizing);
    let s = transition(s, E::AudioFinalized).unwrap();
    assert_eq!(s, S::Transcribing);
    let s = transition(s, E::TranscriptReady).unwrap();
    assert_eq!(s, S::Inserting);
    let s = transition(s, E::Inserted).unwrap();
    assert_eq!(s, S::Done(DictationOutcome::Inserted));
    assert!(s.is_terminal());
}

#[test]
fn release_during_warming_still_finalizes() {
    assert_eq!(transition(S::Warming, E::Finalize), Some(S::Finalizing));
}

#[test]
fn engine_death_mid_recording_finalizes_rather_than_failing() {
    assert_eq!(
        transition(S::Recording { locked: true }, E::EngineFailed(DictationFailure::Audio)),
        Some(S::Finalizing)
    );
}

#[test]
fn inserting_ignores_cancel() {
    assert_eq!(transition(S::Inserting, E::Cancel), None);
}

#[test]
fn locked_recording_cannot_lock_again() {
    assert_eq!(transition(S::Recording { locked: true }, E::LockIn), None);
}

#[test]
fn stale_completions_are_dropped() {
    assert_eq!(transition(S::Idle, E::TranscriptReady), None);
    assert_eq!(transition(S::Cancelled, E::Inserted), None);
}

#[test]
fn a_finished_session_takes_no_more_events() {
    for state in [
        S::Done(DictationOutcome::Silent),
        S::Cancelled,
        S::Failed(DictationFailure::Timeout),
    ] {
        assert!(state.is_terminal());
        assert_eq!(transition(state, E::Finalize), None);
        assert_eq!(transition(state, E::Cancel), None);
    }
    assert!(!S::Idle.is_terminal());
    assert!(S::Recording { locked: false }.is_recording());
}
