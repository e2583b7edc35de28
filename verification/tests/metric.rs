use ledmon::error::ErrorKind;
use ledmon::metric::{cpu_usage, disk_busy, memory_usage, Usage, MAX_WHOLE};
use ledmon::sample::{CpuSample, DiskSample, MemorySample};

fn cpu(user: u64, nice: u64, system: u64, idle: u64) -> CpuSample {
    CpuSample { user, nice, system, idle }
}

fn percent(usage: &Usage) -> f64 {
    let (part, whole) = usage.ratio();
    100.0 * part as f64 / whole as f64
}

#[test]
fn usage_is_part_of_whole_in_percent() {
    assert_eq!(percent(&Usage::new(750, 1000).unwrap()), 75.0);
    assert_eq!(percent(&Usage::new(0, 3).unwrap()), 0.0);
    assert_eq!(percent(&Usage::new(3, 3).unwrap()), 100.0);
    assert_eq!(percent(&Usage::new(1, 8).unwrap()), 12.5);
    assert_eq!(percent(&Usage::new(u64::MAX, u64::MAX).unwrap()), 100.0);
}

#[test]
fn usage_needs_a_whole_and_no_more_than_it() {
    assert!(Usage::new(0, 0).is_none());
    assert!(Usage::new(1, 0).is_none());
    assert!(Usage::new(4, 3).is_none());
    assert!(Usage::new(3, 3).is_some());
}

#[test]
fn usage_ratio_is_well_formed() {
    let (part, whole) = Usage::new(1, 4).unwrap().ratio();
    assert!(whole > 0);
    assert!(part <= whole);
    assert!(whole <= MAX_WHOLE);
    assert_eq!(part * 4, whole);
}

#[test]
fn idle_usage_is_zero_percent() {
    assert_eq!(percent(&Usage::idle()), 0.0);
}

#[test]
fn largest_whole_is_four_full_counters() {
    assert_eq!(MAX_WHOLE, 4 * u64::MAX as u128);
}

#[test]
fn cpu_usage_is_the_share_of_ticks_not_idle() {
    let usage = cpu_usage(&cpu(100, 0, 50, 850), &cpu(130, 0, 60, 910)).unwrap();
    assert_eq!(percent(&usage), 40.0);
}

#[test]
fn cpu_usage_counts_all_four_counters() {
    let usage = cpu_usage(&cpu(0, 0, 0, 0), &cpu(1, 2, 3, 2)).unwrap();
    assert_eq!(percent(&usage), 75.0);
}

#[test]
fn cpu_usage_of_idle_ticks_only_is_zero() {
    let usage = cpu_usage(&cpu(5, 5, 5, 5), &cpu(5, 5, 5, 25)).unwrap();
    assert_eq!(percent(&usage), 0.0);
}

#[test]
fn cpu_usage_without_idle_ticks_is_full() {
    let usage = cpu_usage(&cpu(5, 5, 5, 5), &cpu(6, 7, 8, 5)).unwrap();
    assert_eq!(percent(&usage), 100.0);
}

#[test]
fn cpu_usage_with_idle_running_backwards_is_held_at_full() {
    // 5 ticks in all, idle 3 fewer: the share not idle would be 160 percent.
    let usage = cpu_usage(&cpu(10, 0, 5, 85), &cpu(15, 0, 8, 82)).unwrap();
    assert_eq!(percent(&usage), 100.0);
}

#[test]
fn cpu_usage_with_idle_ahead_of_the_total_is_held_at_zero() {
    // 50 ticks in all, idle 100 more: the share not idle would be negative.
    let usage = cpu_usage(&cpu(100, 0, 0, 0), &cpu(50, 0, 0, 100)).unwrap();
    assert_eq!(percent(&usage), 0.0);
}

#[test]
fn cpu_usage_without_progress_is_degenerate() {
    assert_eq!(
        cpu_usage(&cpu(10, 0, 5, 85), &cpu(12, 0, 6, 82)).err(),
        Some(ErrorKind::DivisionDegenerate)
    );
    assert_eq!(
        cpu_usage(&cpu(1, 2, 3, 4), &cpu(1, 2, 3, 4)).err(),
        Some(ErrorKind::DivisionDegenerate)
    );
}

#[test]
fn cpu_usage_of_the_first_sample_without_ticks_is_degenerate() {
    assert_eq!(
        cpu_usage(&CpuSample::zero(), &cpu(0, 0, 0, 0)).err(),
        Some(ErrorKind::DivisionDegenerate)
    );
}

#[test]
fn cpu_usage_after_a_counter_reset_is_degenerate() {
    assert_eq!(
        cpu_usage(&cpu(100, 0, 50, 850), &cpu(1, 0, 1, 8)).err(),
        Some(ErrorKind::DivisionDegenerate)
    );
}

#[test]
fn cpu_usage_of_full_counters_does_not_overflow() {
    let full = cpu(u64::MAX, u64::MAX, u64::MAX, u64::MAX);
    let usage = cpu_usage(&CpuSample::zero(), &full).unwrap();
    assert_eq!(usage.ratio(), (3 * u64::MAX as u128, 4 * u64::MAX as u128));
    assert_eq!(
        cpu_usage(&full, &CpuSample::zero()).err(),
        Some(ErrorKind::DivisionDegenerate)
    );
}

#[test]
fn cpu_usage_stays_in_range_over_a_run_of_samples() {
    let run = [
        cpu(0, 0, 0, 0),
        cpu(10, 1, 5, 84),
        cpu(10, 1, 5, 84),
        cpu(30, 1, 9, 160),
        cpu(31, 1, 9, 150),
        cpu(2, 0, 1, 7),
        cpu(90, 0, 1, 7),
        cpu(90, 0, 1, 4000),
    ];
    for pair in run.windows(2) {
        if let Ok(usage) = cpu_usage(&pair[0], &pair[1]) {
            let (part, whole) = usage.ratio();
            assert!(part <= whole);
            assert!((0.0..=100.0).contains(&percent(&usage)));
        }
    }
}

#[test]
fn memory_usage_is_the_share_not_available() {
    let usage = memory_usage(&MemorySample { total: 1000, available: 250 }).unwrap();
    assert_eq!(percent(&usage), 75.0);
    assert_eq!(usage.ratio(), (750, 1000));
}

#[test]
fn memory_usage_ends_at_zero_and_full() {
    let none = memory_usage(&MemorySample { total: 8, available: 8 }).unwrap();
    assert_eq!(percent(&none), 0.0);
    let all = memory_usage(&MemorySample { total: 8, available: 0 }).unwrap();
    assert_eq!(percent(&all), 100.0);
}

#[test]
fn memory_usage_with_more_available_than_total_is_held_at_zero() {
    let usage = memory_usage(&MemorySample { total: 1000, available: 1500 }).unwrap();
    assert_eq!(percent(&usage), 0.0);
}

#[test]
fn memory_usage_without_memory_is_degenerate() {
    assert_eq!(
        memory_usage(&MemorySample { total: 0, available: 0 }).err(),
        Some(ErrorKind::DivisionDegenerate)
    );
    assert_eq!(
        memory_usage(&MemorySample { total: 0, available: 7 }).err(),
        Some(ErrorKind::DivisionDegenerate)
    );
}

#[test]
fn disk_is_busy_when_either_counter_changes() {
    let before = DiskSample { reads: 10, writes: 20 };
    assert!(disk_busy(&before, &DiskSample { reads: 11, writes: 20 }));
    assert!(disk_busy(&before, &DiskSample { reads: 10, writes: 21 }));
    assert!(disk_busy(&before, &DiskSample { reads: 11, writes: 21 }));
    assert!(disk_busy(&before, &DiskSample { reads: 9, writes: 20 }));
}

#[test]
fn disk_is_quiet_when_both_counters_stay() {
    let before = DiskSample { reads: 10, writes: 20 };
    assert!(!disk_busy(&before, &DiskSample { reads: 10, writes: 20 }));
    assert!(!disk_busy(&DiskSample::zero(), &DiskSample { reads: 0, writes: 0 }));
}

#[test]
fn disk_with_lifetime_counters_is_busy_against_the_zero_sample() {
    assert!(disk_busy(&DiskSample::zero(), &DiskSample { reads: 1000, writes: 0 }));
}
