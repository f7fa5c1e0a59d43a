use tang_cli::app::App;
use tang_cli::cli_args::{CliCommand, CliSubCommandEnum, PerformanceCommand};
use tang_cli::constants::{CPU_SIGNAL_LEN, MEMORY_SIGNAL_LEN};
use tang_cli::window::SignalError;

fn performance_args(tick_rate: u64) -> CliCommand {
    CliCommand {
        tick_rate,
        enhanced_graphics: true,
        nested: CliSubCommandEnum::Performance(PerformanceCommand {
            graphic: false,
            internet: false,
        }),
    }
}

#[test]
fn app_new_builds_both_samplers() {
    let app = App::new("dashboard".to_string(), 4, performance_args(100)).unwrap();
    assert_eq!(app.title, "dashboard");
    assert!(!app.should_quit);
    assert_eq!(app.cli_args.tick_rate, 100);
    assert_eq!(app.cpu_signal.cpu_count, 4);
    assert_eq!(app.cpu_signal.cpu_total_usage.points.len(), CPU_SIGNAL_LEN);
    assert_eq!(app.cpu_signal.cpu_total_usage.step, 100);
    assert_eq!(app.mem_signal.mem_total_usage.points.len(), MEMORY_SIGNAL_LEN);
    assert_eq!(app.mem_signal.mem_total_usage.step, 100);
    for (i, p) in app.cpu_signal.cpu_total_usage.points.iter().enumerate() {
        assert_eq!(p.time, i as u64 * 100);
        assert_eq!(p.value, 0);
    }
    for (i, p) in app.mem_signal.mem_total_usage.points.iter().enumerate() {
        assert_eq!(p.time, i as u64 * 100);
        assert_eq!(p.value, 0);
    }
    assert_eq!(app.cpu_signal.cpu_current_usage, vec![0, 0, 0, 0]);
    assert_eq!(app.cpu_signal.time_range, [0, CPU_SIGNAL_LEN as u64 * 100]);
    assert_eq!(app.mem_signal.time_range, [0, MEMORY_SIGNAL_LEN as u64 * 100]);
    assert_eq!(app.mem_signal.used_memory, 0);
    assert_eq!(app.mem_signal.total_memory, 1);
    assert_eq!(app.mem_signal.free_memory, 0);
}

#[test]
fn app_new_rejects_a_zero_configuration() {
    let r = App::new("t".to_string(), 0, performance_args(100));
    assert!(matches!(r, Err(SignalError::ConfigurationError)));
    let r = App::new("t".to_string(), 4, performance_args(0));
    assert!(matches!(r, Err(SignalError::ConfigurationError)));
}

#[test]
fn on_key_only_recognizes_the_quit_character() {
    let mut app = App::new("t".to_string(), 2, performance_args(100)).unwrap();
    app.on_key('x');
    assert!(!app.should_quit);
    app.on_key('q');
    assert!(app.should_quit);
    assert_eq!(app.as_app().title, "t");
}

#[test]
fn on_tick_feeds_both_samplers() {
    let mut app = App::new("t".to_string(), 2, performance_args(100)).unwrap();
    let r = app.on_tick(&vec![1000, 3000], 10, 90, 100);
    assert_eq!(r, Ok(()));
    assert_eq!(app.cpu_signal.cpu_total_usage.points.last().unwrap().value, 2000);
    assert_eq!(app.mem_signal.mem_total_usage.points.last().unwrap().value, 1000);
    assert_eq!(app.mem_signal.used_memory, 10);
    assert_eq!(app.mem_signal.total_memory, 100);
}

#[test]
fn on_tick_failures_stay_local_to_each_sampler() {
    let mut app = App::new("t".to_string(), 2, performance_args(100)).unwrap();
    // a short CPU snapshot fails the CPU tick; memory still updates
    let r = app.on_tick(&vec![1000], 50, 50, 100);
    assert_eq!(r, Err(SignalError::SampleUnavailable));
    assert_eq!(app.cpu_signal.cpu_total_usage.points.last().unwrap().value, 0);
    assert_eq!(app.mem_signal.mem_total_usage.points.last().unwrap().value, 5000);
    // a zero memory total fails the memory tick; the CPU still updates
    let r = app.on_tick(&vec![1000, 1000], 1, 1, 0);
    assert_eq!(r, Err(SignalError::DivideByZero));
    assert_eq!(app.cpu_signal.cpu_total_usage.points.last().unwrap().value, 1000);
    assert_eq!(app.mem_signal.mem_total_usage.points.last().unwrap().value, 5000);
}
