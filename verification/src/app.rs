//! The application state: the two samplers, the quit flag, and the parsed
//! command line, driven from outside by key events and periodic ticks.

use vstd::prelude::*;

use crate::cli_args::CliCommand;
use crate::constants::{CPU_SIGNAL_LEN, MEMORY_SIGNAL_LEN};
use crate::sampler::{CpuSignal, MemorySignal};
use crate::window::SignalError;

verus! {

/// The dashboard's whole mutable state.  The host handle and the terminal
/// stay outside: each tick is handed the raw readings as plain values.
pub struct App {
    pub title: String,
    pub should_quit: bool,
    pub cli_args: CliCommand,
    pub cpu_signal: CpuSignal,
    pub mem_signal: MemorySignal,
}

impl App {
    /// Well-formedness: both samplers are well formed.
    pub open spec fn wf(self) -> bool {
        &&& self.cpu_signal.wf()
        &&& self.mem_signal.wf()
    }

    /// Builds the application state: one CPU sampler over `cpu_count` cores
    /// and one memory sampler, both stepping by the configured tick period
    /// in milliseconds.  A zero core count or tick period is rejected.
    pub fn new(title: String, cpu_count: usize, cli_args: CliCommand) -> (r: Result<
        App,
        SignalError,
    >)
        ensures
            r is Err <==> (cpu_count == 0 || cli_args.tick_rate == 0
                || CPU_SIGNAL_LEN as int * cli_args.tick_rate as int > u64::MAX as int),
            r is Err ==> r == Err::<App, SignalError>(SignalError::ConfigurationError),
            r matches Ok(a) ==> {
                &&& a.wf()
                &&& a.title == title
                &&& !a.should_quit
                &&& a.cli_args == cli_args
                &&& a.cpu_signal.cpu_count == cpu_count
                &&& a.cpu_signal.cpu_total_usage.step == cli_args.tick_rate
                &&& a.cpu_signal.cpu_total_usage.points@.len() == CPU_SIGNAL_LEN
                &&& forall|i: int| 0 <= i < CPU_SIGNAL_LEN ==>
                        (#[trigger] a.cpu_signal.cpu_total_usage.points@[i]).time
                            == i * (cli_args.tick_rate as int)
                &&& forall|i: int| 0 <= i < CPU_SIGNAL_LEN ==>
                        (#[trigger] a.cpu_signal.cpu_total_usage.points@[i]).value == 0
                &&& forall|i: int| 0 <= i < cpu_count ==>
                        (#[trigger] a.cpu_signal.cpu_current_usage@[i]) == 0
                &&& a.cpu_signal.time_range[0] == 0
                &&& a.cpu_signal.time_range[1]
                        == CPU_SIGNAL_LEN as int * cli_args.tick_rate as int
                &&& a.mem_signal.mem_total_usage.step == cli_args.tick_rate
                &&& a.mem_signal.mem_total_usage.points@.len() == MEMORY_SIGNAL_LEN
                &&& forall|i: int| 0 <= i < MEMORY_SIGNAL_LEN ==>
                        (#[trigger] a.mem_signal.mem_total_usage.points@[i]).time
                            == i * (cli_args.tick_rate as int)
                &&& forall|i: int| 0 <= i < MEMORY_SIGNAL_LEN ==>
                        (#[trigger] a.mem_signal.mem_total_usage.points@[i]).value == 0
                &&& a.mem_signal.used_memory == 0
                &&& a.mem_signal.total_memory == 1
                &&& a.mem_signal.free_memory == 0
                &&& a.mem_signal.time_range[0] == 0
                &&& a.mem_signal.time_range[1]
                        == MEMORY_SIGNAL_LEN as int * cli_args.tick_rate as int
            },
    {
        let step = cli_args.tick_rate;
        let cpu_signal = match CpuSignal::new(cpu_count, CPU_SIGNAL_LEN, step) {
            Err(e) => {
                return Err(e);
            },
            Ok(c) => c,
        };
        let mem_signal = match MemorySignal::new(MEMORY_SIGNAL_LEN, step) {
            Err(e) => {
                return Err(e);
            },
            Ok(m) => m,
        };
        Ok(App { title, should_quit: false, cli_args, cpu_signal, mem_signal })
    }

    pub fn as_app(&self) -> (r: &App)
        ensures
            r == self,
    {
        &self
    }

    /// A key event: the quit character raises the quit flag; every other key
    /// changes nothing.
    pub fn on_key(&mut self, c: char)
        ensures
            c == 'q' ==> *final(self) == (App { should_quit: true, ..*old(self) }),
            c != 'q' ==> (*final(self) == *old(self)),
    {
        match c {
            'q' => {
                self.should_quit = true;
            },
            _ => {},
        }
    }

    /// One tick: both samplers take the fresh readings, each advancing its
    /// own window by one sample; a failing sampler skips only its own update
    /// and the first error is reported.  The readings are per-core CPU usage
    /// in hundredths of a percent and the memory byte counts.
    pub fn on_tick(&mut self, cpu_readings: &Vec<u64>, used: u64, free: u64, total: u64) -> (r:
        Result<(), SignalError>)
        requires
            old(self).wf(),
        ensures
            final(self).wf(),
            final(self).cpu_signal.cpu_total_usage.points@.len()
                == old(self).cpu_signal.cpu_total_usage.points@.len(),
            final(self).mem_signal.mem_total_usage.points@.len()
                == old(self).mem_signal.mem_total_usage.points@.len(),
            final(self).title == old(self).title,
            final(self).should_quit == old(self).should_quit,
            final(self).cli_args == old(self).cli_args,
            r is Ok <==> (old(self).cpu_signal.tick_enabled(cpu_readings@)
                && old(self).mem_signal.tick_enabled(used, total)),
            old(self).cpu_signal.tick_enabled(cpu_readings@)
                ==> CpuSignal::tick_post(
                    old(self).cpu_signal,
                    final(self).cpu_signal,
                    cpu_readings@,
                ),
            !old(self).cpu_signal.tick_enabled(cpu_readings@)
                ==> final(self).cpu_signal == old(self).cpu_signal,
            old(self).mem_signal.tick_enabled(used, total)
                ==> MemorySignal::tick_post(
                    old(self).mem_signal,
                    final(self).mem_signal,
                    used,
                    free,
                    total,
                ),
            !old(self).mem_signal.tick_enabled(used, total)
                ==> final(self).mem_signal == old(self).mem_signal,
            !old(self).cpu_signal.tick_enabled(cpu_readings@)
                ==> r == Err::<(), SignalError>(SignalError::SampleUnavailable),
            old(self).cpu_signal.tick_enabled(cpu_readings@) && total == 0
                ==> r == Err::<(), SignalError>(SignalError::DivideByZero),
            old(self).cpu_signal.tick_enabled(cpu_readings@) && total != 0
                && !old(self).mem_signal.tick_enabled(used, total)
                ==> r == Err::<(), SignalError>(SignalError::SampleUnavailable),
    {
        let cpu_r = self.cpu_signal.on_tick(cpu_readings);
        let mem_r = self.mem_signal.on_tick(used, free, total);
        match cpu_r {
            Err(e) => Err(e),
            Ok(()) => mem_r,
        }
    }
}

} // verus!
