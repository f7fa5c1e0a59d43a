//! The two concrete samplers: CPU (mean of the per-core readings) and memory
//! (used memory as a share of total memory).
//!
//! Metric values are carried as integers in hundredths of a percent, so
//! `10_000` stands for 100%; readings arrive from the host metrics provider
//! already converted to that scale.

use vstd::arithmetic::div_mod::{lemma_div_is_ordered, lemma_div_multiples_vanish};
use vstd::prelude::*;

use crate::constants::PCT_SCALE;
use crate::window::{SignalError, Window};

verus! {

/// The sum of a sequence of readings.
pub open spec fn sum_seq(s: Seq<u64>) -> int
    decreases s.len(),
{
    if s.len() == 0 {
        0
    } else {
        sum_seq(s.drop_last()) + s.last()
    }
}

/// The arithmetic mean of a non-empty sequence of readings, rounded down.
pub open spec fn mean_of(s: Seq<u64>) -> int {
    sum_seq(s) / s.len() as int
}

/// The memory reading as hundredths of a percent of `total`, rounded down.
pub open spec fn pct_of(used: u64, total: u64) -> int {
    used as int * PCT_SCALE as int / total as int
}

/// A sum of readings is at least zero and at most one maximal reading per
/// element.
proof fn lemma_sum_seq_bounds(s: Seq<u64>)
    ensures
        0 <= sum_seq(s) <= s.len() * u64::MAX as int,
    decreases s.len(),
{
    if s.len() > 0 {
        lemma_sum_seq_bounds(s.drop_last());
    }
}

/// Sums the readings, accumulating into a type wide enough never to
/// overflow.
fn sum_readings(readings: &Vec<u64>) -> (r: u128)
    ensures
        r == sum_seq(readings@),
{
    let mut total: u128 = 0;
    let mut i: usize = 0;
    while i < readings.len()
        invariant
            i <= readings@.len(),
            total == sum_seq(readings@.take(i as int)),
            total <= i as int * u64::MAX as int,
        decreases readings@.len() - i,
    {
        proof {
            assert(readings@.take(i + 1).drop_last() =~= readings@.take(i as int));
            assert(readings@.take(i + 1).last() == readings@[i as int]);
        }
        total = total + readings[i] as u128;
        i = i + 1;
    }
    proof {
        assert(readings@.take(readings@.len() as int) =~= readings@);
    }
    total
}

/// Derives one aggregate CPU usage time series from per-core readings: one
/// rolling window of the mean usage, plus the latest reading of each core.
pub struct CpuSignal {
    pub cpu_count: usize,
    pub time_range: [u64; 2],
    pub cpu_current_usage: Vec<u64>,
    pub cpu_total_usage: Window,
}

impl CpuSignal {
    /// Well-formedness: the window is well formed and one current reading is
    /// held per core.
    pub open spec fn wf(self) -> bool {
        &&& self.cpu_total_usage.wf()
        &&& self.cpu_count >= 1
        &&& self.cpu_current_usage@.len() == self.cpu_count
    }

    /// Whether a tick with these readings can succeed: the snapshot covers
    /// every core and the next timestamp is still representable.
    pub open spec fn tick_enabled(self, readings: Seq<u64>) -> bool {
        &&& readings.len() == self.cpu_count
        &&& self.cpu_total_usage.last_time() + self.cpu_total_usage.step <= u64::MAX as int
    }

    /// What one successful tick does: the oldest point leaves, the rest shift
    /// down by one, the mean of the readings is appended at the next
    /// timestamp, the per-core readings are recorded, and the range is
    /// recomputed from the oldest and newest time.
    pub open spec fn tick_post(pre: CpuSignal, post: CpuSignal, readings: Seq<u64>) -> bool {
        let len = pre.cpu_total_usage.points@.len() as int;
        &&& post.cpu_count == pre.cpu_count
        &&& post.cpu_total_usage.step == pre.cpu_total_usage.step
        &&& post.cpu_total_usage.points@.len() == len
        &&& forall|i: int| 0 <= i < len - 1 ==>
                (#[trigger] post.cpu_total_usage.points@[i]) == pre.cpu_total_usage.points@[i + 1]
        &&& post.cpu_total_usage.points@[len - 1].value == mean_of(readings)
        &&& post.cpu_total_usage.points@[len - 1].time
                == pre.cpu_total_usage.last_time() + pre.cpu_total_usage.step
        &&& post.cpu_current_usage@ == readings
        &&& post.time_range[0] == post.cpu_total_usage.first_time()
        &&& post.time_range[1] == post.cpu_total_usage.last_time()
    }

    /// Builds a sampler over `cpu_count` cores whose window holds `len`
    /// zero-valued points at times `0, time_step, ...`, with the chart range
    /// `[0, len * time_step]`.  A zero core count, length or step, or times
    /// that cannot be represented, are rejected.
    pub fn new(cpu_count: usize, len: usize, time_step: u64) -> (r: Result<CpuSignal, SignalError>)
        ensures
            r is Err <==> (cpu_count == 0 || len == 0 || time_step == 0
                || len as int * time_step as int > u64::MAX as int),
            r is Err ==> r == Err::<CpuSignal, SignalError>(SignalError::ConfigurationError),
            r matches Ok(c) ==> {
                &&& c.wf()
                &&& c.cpu_count == cpu_count
                &&& c.cpu_total_usage.step == time_step
                &&& c.cpu_total_usage.points@.len() == len
                &&& forall|i: int| 0 <= i < len ==>
                        (#[trigger] c.cpu_total_usage.points@[i]).time == i * (time_step as int)
                &&& forall|i: int| 0 <= i < len ==>
                        (#[trigger] c.cpu_total_usage.points@[i]).value == 0
                &&& forall|i: int| 0 <= i < cpu_count ==>
                        (#[trigger] c.cpu_current_usage@[i]) == 0
                &&& c.time_range[0] == 0
                &&& c.time_range[1] == len as int * time_step as int
            },
    {
        if cpu_count == 0 || len == 0 || time_step == 0 {
            return Err(SignalError::ConfigurationError);
        }
        let upper = match (len as u64).checked_mul(time_step) {
            None => {
                return Err(SignalError::ConfigurationError);
            },
            Some(upper) => upper,
        };
        let cpu_total_usage = Window::initialize(len, 0, time_step);
        let mut cpu_current_usage: Vec<u64> = Vec::new();
        let mut i: usize = 0;
        while i < cpu_count
            invariant
                i <= cpu_count,
                cpu_current_usage@.len() == i,
                forall|k: int| 0 <= k < i ==> (#[trigger] cpu_current_usage@[k]) == 0,
            decreases cpu_count - i,
        {
            cpu_current_usage.push(0);
            i = i + 1;
        }
        Ok(CpuSignal {
            cpu_count,
            time_range: [0, upper],
            cpu_current_usage,
            cpu_total_usage,
        })
    }

    /// One tick: aggregates the per-core readings (hundredths of a percent)
    /// into their mean over all `cpu_count` cores and advances the window by
    /// that one sample.  A snapshot that does not cover every core, or a next
    /// timestamp that cannot be represented, fails just this tick and leaves
    /// the sampler exactly as it was.
    pub fn on_tick(&mut self, readings: &Vec<u64>) -> (r: Result<(), SignalError>)
        requires
            old(self).wf(),
        ensures
            final(self).wf(),
            final(self).cpu_total_usage.points@.len()
                == old(self).cpu_total_usage.points@.len(),
            r is Ok <==> old(self).tick_enabled(readings@),
            r is Err ==> r == Err::<(), SignalError>(SignalError::SampleUnavailable)
                && *final(self) == *old(self),
            r is Ok ==> Self::tick_post(*old(self), *final(self), readings@),
    {
        if readings.len() != self.cpu_count {
            return Err(SignalError::SampleUnavailable);
        }
        let len = self.cpu_total_usage.points.len();
        let last = self.cpu_total_usage.points[len - 1].time;
        if self.cpu_total_usage.step > u64::MAX - last {
            return Err(SignalError::SampleUnavailable);
        }
        let total_usage = sum_readings(readings);
        let count = self.cpu_count as u128;
        proof {
            lemma_sum_seq_bounds(readings@);
            lemma_div_is_ordered(
                total_usage as int,
                count as int * u64::MAX as int,
                count as int,
            );
            lemma_div_multiples_vanish(u64::MAX as int, count as int);
        }
        let mean_wide = total_usage / count;
        let mean = mean_wide as u64;
        let mut current: Vec<u64> = Vec::new();
        let mut i: usize = 0;
        while i < readings.len()
            invariant
                i <= readings@.len(),
                current@ == readings@.take(i as int),
            decreases readings@.len() - i,
        {
            let v = readings[i];
            current.push(v);
            proof {
                assert(current@ =~= readings@.take(i + 1));
            }
            i = i + 1;
        }
        proof {
            assert(readings@.take(readings@.len() as int) =~= readings@);
        }
        self.cpu_current_usage = current;
        let mut fresh: Vec<u64> = Vec::new();
        fresh.push(mean);
        self.cpu_total_usage.advance(&fresh, 1);
        self.time_range = self.cpu_total_usage.time_range();
        Ok(())
    }
}

/// Derives the memory-usage time series: one rolling window of used memory
/// as hundredths of a percent of total memory, plus the last raw readings.
pub struct MemorySignal {
    pub used_memory: u64,
    pub total_memory: u64,
    pub free_memory: u64,
    pub time_range: [u64; 2],
    pub mem_total_usage: Window,
}

impl MemorySignal {
    /// Well-formedness: the window is well formed.
    pub open spec fn wf(self) -> bool {
        self.mem_total_usage.wf()
    }

    /// Whether a tick with these readings can succeed: the total is not zero,
    /// the percentage fits a value, and the next timestamp is representable.
    pub open spec fn tick_enabled(self, used: u64, total: u64) -> bool {
        &&& total != 0
        &&& pct_of(used, total) <= u64::MAX as int
        &&& self.mem_total_usage.last_time() + self.mem_total_usage.step <= u64::MAX as int
    }

    /// What one successful tick does: the oldest point leaves, the rest shift
    /// down by one, the percentage of used memory is appended at the next
    /// timestamp, the raw readings are recorded, and the range is recomputed
    /// from the oldest and newest time.
    pub open spec fn tick_post(
        pre: MemorySignal,
        post: MemorySignal,
        used: u64,
        free: u64,
        total: u64,
    ) -> bool {
        let len = pre.mem_total_usage.points@.len() as int;
        &&& post.mem_total_usage.step == pre.mem_total_usage.step
        &&& post.mem_total_usage.points@.len() == len
        &&& forall|i: int| 0 <= i < len - 1 ==>
                (#[trigger] post.mem_total_usage.points@[i]) == pre.mem_total_usage.points@[i + 1]
        &&& post.mem_total_usage.points@[len - 1].value == pct_of(used, total)
        &&& post.mem_total_usage.points@[len - 1].time
                == pre.mem_total_usage.last_time() + pre.mem_total_usage.step
        &&& post.used_memory == used
        &&& post.free_memory == free
        &&& post.total_memory == total
        &&& post.time_range[0] == post.mem_total_usage.first_time()
        &&& post.time_range[1] == post.mem_total_usage.last_time()
    }

    /// Builds a sampler whose window holds `len` zero-valued points at times
    /// `0, time_step, ...`, with the chart range `[0, len * time_step]`.  A
    /// zero length or step, or times that cannot be represented, are
    /// rejected.
    pub fn new(len: usize, time_step: u64) -> (r: Result<MemorySignal, SignalError>)
        ensures
            r is Err <==> (len == 0 || time_step == 0
                || len as int * time_step as int > u64::MAX as int),
            r is Err ==> r == Err::<MemorySignal, SignalError>(SignalError::ConfigurationError),
            r matches Ok(m) ==> {
                &&& m.wf()
                &&& m.mem_total_usage.step == time_step
                &&& m.mem_total_usage.points@.len() == len
                &&& forall|i: int| 0 <= i < len ==>
                        (#[trigger] m.mem_total_usage.points@[i]).time == i * (time_step as int)
                &&& forall|i: int| 0 <= i < len ==>
                        (#[trigger] m.mem_total_usage.points@[i]).value == 0
                &&& m.used_memory == 0
                &&& m.total_memory == 1
                &&& m.free_memory == 0
                &&& m.time_range[0] == 0
                &&& m.time_range[1] == len as int * time_step as int
            },
    {
        if len == 0 || time_step == 0 {
            return Err(SignalError::ConfigurationError);
        }
        let upper = match (len as u64).checked_mul(time_step) {
            None => {
                return Err(SignalError::ConfigurationError);
            },
            Some(upper) => upper,
        };
        let mem_total_usage = Window::initialize(len, 0, time_step);
        Ok(MemorySignal {
            used_memory: 0,
            total_memory: 1,
            free_memory: 0,
            time_range: [0, upper],
            mem_total_usage,
        })
    }

    /// One tick: converts the used/total byte readings into hundredths of a
    /// percent and advances the window by that one sample.  A zero total is
    /// a division-by-zero error; a percentage or timestamp that cannot be
    /// represented makes the sample unavailable.  Either way the failure is
    /// local to this tick and the sampler is left exactly as it was.
    pub fn on_tick(&mut self, used: u64, free: u64, total: u64) -> (r: Result<(), SignalError>)
        requires
            old(self).wf(),
        ensures
            final(self).wf(),
            final(self).mem_total_usage.points@.len()
                == old(self).mem_total_usage.points@.len(),
            r is Ok <==> old(self).tick_enabled(used, total),
            total == 0 ==> r == Err::<(), SignalError>(SignalError::DivideByZero),
            r is Err && total != 0 ==> r == Err::<(), SignalError>(SignalError::SampleUnavailable),
            r is Err ==> *final(self) == *old(self),
            r is Ok ==> Self::tick_post(*old(self), *final(self), used, free, total),
    {
        if total == 0 {
            return Err(SignalError::DivideByZero);
        }
        proof {
            assert(used as int * PCT_SCALE as int <= u64::MAX as int * PCT_SCALE as int)
                by (nonlinear_arith)
                requires
                    used as int <= u64::MAX as int,
                    PCT_SCALE as int >= 0,
            ;
        }
        let wide = used as u128 * PCT_SCALE as u128;
        let pct_wide = wide / (total as u128);
        if pct_wide > u64::MAX as u128 {
            return Err(SignalError::SampleUnavailable);
        }
        let len = self.mem_total_usage.points.len();
        let last = self.mem_total_usage.points[len - 1].time;
        if self.mem_total_usage.step > u64::MAX - last {
            return Err(SignalError::SampleUnavailable);
        }
        let pct = pct_wide as u64;
        self.used_memory = used;
        self.free_memory = free;
        self.total_memory = total;
        let mut fresh: Vec<u64> = Vec::new();
        fresh.push(pct);
        self.mem_total_usage.advance(&fresh, 1);
        self.time_range = self.mem_total_usage.time_range();
        Ok(())
    }
}

} // verus!
