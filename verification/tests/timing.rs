use jot::clock::Duration;
use jot::shell::CLOCK_TICK;
use jot::timeout::overall_deadline;

fn seconds(d: Duration) -> f64 {
    d.nanos as f64 / 1e9
}

#[test]
fn deadline_scales_gently_with_audio_length() {
    assert_eq!(seconds(overall_deadline(Duration::from_secs(5))), 31.25);
    assert_eq!(seconds(overall_deadline(Duration::from_secs(600))), 180.0);
}

#[test]
fn a_zero_length_clip_still_gets_the_base_budget() {
    assert_eq!(overall_deadline(Duration::from_secs(0)).as_secs(), 30);
}

#[test]
fn the_clock_tick_is_fast_enough_for_a_one_second_timer() {
    assert!(CLOCK_TICK <= Duration::from_millis(500).nanos);
}

#[test]
fn a_reading_ahead_of_now_is_no_time_at_all() {
    let later = Duration::from_millis(5);
    let earlier = Duration::from_millis(3);
    assert_eq!(later.saturating_sub(earlier), Duration::from_millis(2));
    assert_eq!(earlier.saturating_sub(later), Duration::from_nanos(0));
    assert_eq!(later.saturating_add(earlier), Duration::from_millis(8));
    assert_eq!(Duration::from_millis(1999).as_secs(), 1);
    assert_eq!(Duration::from_nanos(1_999_999).as_millis(), 1);
}
