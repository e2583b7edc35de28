use ledmon::level::{
    Level, HIGH_THRESHOLD, LOW_THRESHOLD, MAX_LEVEL, RAMP_CENTRE, RAMP_SPAN, RAMP_TOP,
};
use ledmon::metric::Usage;

fn level_at(part: u64, whole: u64) -> u8 {
    Level::for_usage(&Usage::new(part, whole).unwrap()).value()
}

/// The mapping as it is written with floating point numbers.
fn level_by_floats(percent: f64) -> u8 {
    if percent < 30.0 {
        0
    } else if percent > 95.0 {
        5
    } else {
        ((percent - 50.0) / 45.0 * 4.0) as u8
    }
}

#[test]
fn thresholds_and_ramp_are_the_known_ones() {
    assert_eq!(MAX_LEVEL, 5);
    assert_eq!(LOW_THRESHOLD, 30);
    assert_eq!(HIGH_THRESHOLD, 95);
    assert_eq!(RAMP_CENTRE, 50);
    assert_eq!(RAMP_SPAN, 45);
    assert_eq!(RAMP_TOP, 4);
}

#[test]
fn no_utilisation_is_off() {
    assert_eq!(level_at(0, 100), 0);
}

#[test]
fn full_utilisation_is_brightest() {
    assert_eq!(level_at(100, 100), 5);
}

#[test]
fn three_quarters_is_level_two() {
    assert_eq!(level_at(75, 100), 2);
    assert_eq!(level_at(750, 1000), 2);
    assert_eq!(level_at(3, 4), 2);
}

#[test]
fn below_the_low_threshold_is_off() {
    assert_eq!(level_at(29, 100), 0);
    assert_eq!(level_at(2999, 10000), 0);
}

#[test]
fn between_low_threshold_and_centre_is_off() {
    assert_eq!(level_at(30, 100), 0);
    assert_eq!(level_at(40, 100), 0);
    assert_eq!(level_at(4999, 10000), 0);
}

#[test]
fn ramp_rises_one_level_each_eleven_and_a_quarter_percent() {
    assert_eq!(level_at(50, 100), 0);
    assert_eq!(level_at(6124, 10000), 0);
    assert_eq!(level_at(6125, 10000), 1);
    assert_eq!(level_at(7249, 10000), 1);
    assert_eq!(level_at(7250, 10000), 2);
    assert_eq!(level_at(8374, 10000), 2);
    assert_eq!(level_at(8375, 10000), 3);
    assert_eq!(level_at(9499, 10000), 3);
}

#[test]
fn top_of_the_ramp_is_reached_at_the_high_threshold_only() {
    assert_eq!(level_at(95, 100), 4);
    assert_eq!(level_at(19, 20), 4);
}

#[test]
fn above_the_high_threshold_is_brightest() {
    assert_eq!(level_at(9501, 10000), 5);
    assert_eq!(level_at(96, 100), 5);
}

#[test]
fn level_never_falls_as_utilisation_rises() {
    let mut last = 0;
    for part in 0..=2000u64 {
        let level = level_at(part, 2000);
        assert!(level >= last);
        assert!(level <= MAX_LEVEL);
        last = level;
    }
    assert_eq!(last, MAX_LEVEL);
}

#[test]
fn level_agrees_with_the_floating_point_mapping() {
    for part in 0..=800u64 {
        let percent = 100.0 * part as f64 / 800.0;
        assert_eq!(level_at(part, 800), level_by_floats(percent));
    }
}

#[test]
fn level_of_wide_counts_does_not_overflow() {
    assert_eq!(level_at(u64::MAX, u64::MAX), 5);
    assert_eq!(level_at(u64::MAX / 4 * 3, u64::MAX), 2);
    assert_eq!(level_at(0, u64::MAX), 0);
}

#[test]
fn activity_is_brightest_and_none_is_off() {
    assert_eq!(Level::for_activity(true).value(), 5);
    assert_eq!(Level::for_activity(false).value(), 0);
    assert!(Level::for_activity(false).value() <= Level::for_activity(true).value());
}

#[test]
fn levels_end_at_the_brightest() {
    for value in 0..=5u8 {
        assert_eq!(Level::new(value).unwrap().value(), value);
    }
    assert_eq!(Level::new(6), None);
    assert_eq!(Level::new(255), None);
}

#[test]
fn off_is_level_zero() {
    assert_eq!(Level::off().value(), 0);
    assert_eq!(Level::off(), Level::new(0).unwrap());
}
