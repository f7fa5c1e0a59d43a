use tang_cli::sampler::{CpuSignal, MemorySignal};
use tang_cli::window::SignalError;

#[test]
fn cpu_new_prefills_zeros() {
    let c = CpuSignal::new(4, 5, 1).unwrap();
    assert_eq!(c.cpu_count, 4);
    assert_eq!(c.cpu_total_usage.points.len(), 5);
    let times: Vec<u64> = c.cpu_total_usage.points.iter().map(|p| p.time).collect();
    assert_eq!(times, vec![0, 1, 2, 3, 4]);
    for p in &c.cpu_total_usage.points {
        assert_eq!(p.value, 0);
    }
    assert_eq!(c.cpu_current_usage, vec![0, 0, 0, 0]);
    assert_eq!(c.time_range, [0, 5]);
}

#[test]
fn cpu_new_rejects_zero_configuration() {
    assert!(matches!(CpuSignal::new(0, 5, 1), Err(SignalError::ConfigurationError)));
    assert!(matches!(CpuSignal::new(4, 0, 1), Err(SignalError::ConfigurationError)));
    assert!(matches!(CpuSignal::new(4, 5, 0), Err(SignalError::ConfigurationError)));
    assert!(matches!(CpuSignal::new(4, 3, u64::MAX), Err(SignalError::ConfigurationError)));
}

#[test]
fn cpu_aggregate_is_the_mean_over_all_cores() {
    // per-core readings of 10%, 20%, 30%, 40% in hundredths of a percent
    let mut c = CpuSignal::new(4, 3, 1).unwrap();
    let r = c.on_tick(&vec![1000, 2000, 3000, 4000]);
    assert_eq!(r, Ok(()));
    // the new point's value is 25.00%
    assert_eq!(c.cpu_total_usage.points.last().unwrap().value, 2500);
    assert_eq!(c.cpu_current_usage, vec![1000, 2000, 3000, 4000]);
    let pts: Vec<(u64, u64)> = c.cpu_total_usage.points.iter().map(|p| (p.time, p.value)).collect();
    assert_eq!(pts, vec![(1, 0), (2, 0), (3, 2500)]);
    assert_eq!(c.time_range, [1, 3]);
}

#[test]
fn cpu_mean_rounds_down() {
    let mut c = CpuSignal::new(3, 2, 1).unwrap();
    assert_eq!(c.on_tick(&vec![1, 1, 2]), Ok(()));
    assert_eq!(c.cpu_total_usage.points.last().unwrap().value, 1);
}

#[test]
fn cpu_single_core_mean_is_the_reading() {
    let mut c = CpuSignal::new(1, 2, 1).unwrap();
    assert_eq!(c.on_tick(&vec![7300]), Ok(()));
    assert_eq!(c.cpu_total_usage.points.last().unwrap().value, 7300);
}

#[test]
fn cpu_short_snapshot_skips_the_tick() {
    let mut c = CpuSignal::new(4, 3, 1).unwrap();
    let before: Vec<(u64, u64)> =
        c.cpu_total_usage.points.iter().map(|p| (p.time, p.value)).collect();
    let r = c.on_tick(&vec![1000, 2000]);
    assert_eq!(r, Err(SignalError::SampleUnavailable));
    let after: Vec<(u64, u64)> =
        c.cpu_total_usage.points.iter().map(|p| (p.time, p.value)).collect();
    assert_eq!(after, before);
    assert_eq!(c.cpu_current_usage, vec![0, 0, 0, 0]);
    assert_eq!(c.time_range, [0, 3]);
}

#[test]
fn cpu_time_overflow_skips_the_tick() {
    let mut c = CpuSignal::new(1, 1, u64::MAX).unwrap();
    // the single pre-fill point sits at time 0, so one step still fits
    assert_eq!(c.on_tick(&vec![100]), Ok(()));
    assert_eq!(c.cpu_total_usage.points[0].time, u64::MAX);
    let r = c.on_tick(&vec![200]);
    assert_eq!(r, Err(SignalError::SampleUnavailable));
    assert_eq!(c.cpu_total_usage.points[0].value, 100);
}

#[test]
fn mem_new_prefills_zeros() {
    let m = MemorySignal::new(4, 2).unwrap();
    assert_eq!(m.mem_total_usage.points.len(), 4);
    let times: Vec<u64> = m.mem_total_usage.points.iter().map(|p| p.time).collect();
    assert_eq!(times, vec![0, 2, 4, 6]);
    assert_eq!(m.used_memory, 0);
    assert_eq!(m.total_memory, 1);
    assert_eq!(m.free_memory, 0);
    assert_eq!(m.time_range, [0, 8]);
}

#[test]
fn mem_new_rejects_zero_configuration() {
    assert!(matches!(MemorySignal::new(0, 1), Err(SignalError::ConfigurationError)));
    assert!(matches!(MemorySignal::new(4, 0), Err(SignalError::ConfigurationError)));
    assert!(matches!(MemorySignal::new(3, u64::MAX), Err(SignalError::ConfigurationError)));
}

#[test]
fn mem_percentage_of_half_used_memory() {
    let mut m = MemorySignal::new(3, 1).unwrap();
    let r = m.on_tick(4_000_000_000, 4_000_000_000, 8_000_000_000);
    assert_eq!(r, Ok(()));
    // the new point's value is 50.00%
    assert_eq!(m.mem_total_usage.points.last().unwrap().value, 5000);
    assert_eq!(m.used_memory, 4_000_000_000);
    assert_eq!(m.free_memory, 4_000_000_000);
    assert_eq!(m.total_memory, 8_000_000_000);
    assert_eq!(m.time_range, [1, 3]);
}

#[test]
fn mem_zero_total_reports_divide_by_zero_and_keeps_the_window() {
    let mut m = MemorySignal::new(3, 1).unwrap();
    let before: Vec<(u64, u64)> =
        m.mem_total_usage.points.iter().map(|p| (p.time, p.value)).collect();
    let r = m.on_tick(123, 0, 0);
    assert_eq!(r, Err(SignalError::DivideByZero));
    let after: Vec<(u64, u64)> =
        m.mem_total_usage.points.iter().map(|p| (p.time, p.value)).collect();
    assert_eq!(after, before);
    assert_eq!(m.mem_total_usage.points.len(), 3);
    assert_eq!(m.mem_total_usage.points.last().unwrap().value, 0);
    assert_eq!(m.used_memory, 0);
    assert_eq!(m.total_memory, 1);
}

#[test]
fn mem_unrepresentable_percentage_skips_the_tick() {
    let mut m = MemorySignal::new(2, 1).unwrap();
    let before: Vec<(u64, u64)> =
        m.mem_total_usage.points.iter().map(|p| (p.time, p.value)).collect();
    let r = m.on_tick(u64::MAX, 0, 1);
    assert_eq!(r, Err(SignalError::SampleUnavailable));
    let after: Vec<(u64, u64)> =
        m.mem_total_usage.points.iter().map(|p| (p.time, p.value)).collect();
    assert_eq!(after, before);
}

#[test]
fn mem_three_ticks_end_to_end() {
    let mut m = MemorySignal::new(3, 1).unwrap();
    assert_eq!(m.on_tick(10, 90, 100), Ok(()));
    assert_eq!(m.on_tick(20, 80, 100), Ok(()));
    assert_eq!(m.on_tick(30, 70, 100), Ok(()));
    assert_eq!(m.mem_total_usage.points.len(), 3);
    let values: Vec<u64> = m.mem_total_usage.points.iter().map(|p| p.value).collect();
    // 10%, 20%, 30% in feed order, every pre-fill point evicted
    assert_eq!(values, vec![1000, 2000, 3000]);
    let times: Vec<u64> = m.mem_total_usage.points.iter().map(|p| p.time).collect();
    assert_eq!(times, vec![3, 4, 5]);
    assert_eq!(m.time_range, [3, 5]);
}
