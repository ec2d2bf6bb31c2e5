use jot::levels::{Decibels, NoiseFloorEstimator, FLOOR_DBFS, MINIMUM_SAMPLES};

fn db(x: f64) -> Decibels {
    let bits = x.to_bits() as i64;
    Decibels { key: bits ^ (((bits >> 63) as u64) >> 1) as i64 }
}

/// The level curve, in decibels.
fn dbfs_from_level(level: f32) -> f64 {
    let linear = if level <= 0.0 { 0.0 } else { level.min(1.0).powf(1.0 / 0.65) / 11.0 };
    if linear <= 0.0 {
        return -120.0;
    }
    (20.0 * (linear as f64).log10()).max(-120.0)
}

fn heard(level: f32) -> Decibels {
    db(dbfs_from_level(level))
}

#[test]
fn floor_needs_a_minimum_sample_count() {
    let mut estimator = NoiseFloorEstimator::default();
    for _ in 0..(MINIMUM_SAMPLES - 1) {
        estimator.ingest(heard(0.02));
    }
    assert!(estimator.floor_db().is_none());
    estimator.ingest(heard(0.02));
    assert!(estimator.floor_db().is_some());
}

#[test]
fn floor_tracks_the_quiet_tenth_not_the_peak() {
    let mut estimator = NoiseFloorEstimator::default();
    for _ in 0..90 {
        estimator.ingest(heard(0.02)); // room
    }
    for _ in 0..10 {
        estimator.ingest(heard(0.5)); // speech
    }
    let floor = estimator.floor_db().unwrap();
    let peak = estimator.peak_db();
    assert_eq!(floor, heard(0.02));
    assert!(peak.key > floor.key);
    let (peak, floor) = estimator.measured_snr().unwrap();
    assert_eq!((peak, floor), (heard(0.5), heard(0.02)));
    assert!(dbfs_from_level(0.5) - dbfs_from_level(0.02) > 12.0);
}

#[test]
fn capacity_is_a_rolling_window() {
    let mut estimator = NoiseFloorEstimator::with_capacity(16);
    for _ in 0..16 {
        estimator.ingest(heard(0.6));
    }
    for _ in 0..16 {
        estimator.ingest(heard(0.01));
    }
    // The loud half has rolled out of the window entirely.
    assert_eq!(estimator.floor_db(), Some(heard(0.01)));
    // …but the peak is a session-lifetime high-water mark, not windowed.
    assert!(estimator.peak_db().key > heard(0.5).key);
    assert_eq!(estimator.sample_count(), 32);
}

#[test]
fn the_bottom_of_the_scale_is_minus_120() {
    assert_eq!(db(-120.0).key, FLOOR_DBFS);
    assert_eq!(NoiseFloorEstimator::default().peak_db(), db(-120.0));
}
