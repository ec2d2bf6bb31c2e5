//! The single source of truth for every network deadline.

use vstd::prelude::*;

use crate::clock::Duration;

verus! {

/// Connect budget in nanoseconds before the attempt is abandoned.
pub const CONNECT: u128 = 5_000_000_000;

/// Nanoseconds to the first response byte after the request body is sent.
pub const TIME_TO_FIRST_BYTE: u128 = 10_000_000_000;

/// Nanoseconds until the pill flips to the "Still working…" state.
pub const SLOW_STATE_UI: u128 = 3_000_000_000;

/// The budget every request has, however short its audio, in nanoseconds.
pub const BASE_DEADLINE: u128 = 30_000_000_000;

/// Half a minute and a quarter of the audio, to the nearest nanosecond.
pub open spec fn deadline_for(audio_duration: Duration) -> int {
    BASE_DEADLINE + (audio_duration.nanos + 2) / 4
}

/// Overall per-request deadline.
pub fn overall_deadline(audio_duration: Duration) -> (deadline: Duration)
    ensures
        deadline.nanos == deadline_for(audio_duration),
{
    let quarter: u128 = audio_duration.nanos / 4 + (if audio_duration.nanos % 4 >= 2 {
        1
    } else {
        0
    });
    Duration { nanos: BASE_DEADLINE + quarter }
}

/// More audio never means less time, and the time grows four times more slowly
/// than the audio.
pub proof fn deadlines_grow_with_the_audio(shorter: Duration, longer: Duration)
    requires
        shorter.nanos <= longer.nanos,
    ensures
        BASE_DEADLINE <= deadline_for(shorter) <= deadline_for(longer),
        4 * (deadline_for(longer) - deadline_for(shorter)) <= longer.nanos - shorter.nanos + 3,
{
}

/// Without audio a request has half a minute, and four seconds of audio give it
/// one second more.
pub proof fn a_deadline_is_half_a_minute_and_a_quarter_of_the_audio(
    audio: Duration,
    deadline: Duration,
)
    requires
        call_ensures(overall_deadline, (audio,), deadline),
    ensures
        audio.nanos == 0 ==> deadline.nanos == 30_000_000_000,
        -2 <= 4 * (deadline.nanos - 30_000_000_000) - audio.nanos <= 2,
{
}

} // verus!
