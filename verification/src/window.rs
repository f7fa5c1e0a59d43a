//! The rolling window: a fixed-capacity, time-ordered buffer of samples.
//!
//! A window always holds exactly as many samples as it was created with,
//! oldest first, and consecutive samples are exactly one `step` of logical
//! time apart.  Advancing the window evicts the oldest samples and appends
//! the same number of new ones whose times continue the series.

use vstd::prelude::*;

verus! {

/// The errors a sampler or a window update can report.  Each tick's error is
/// local: the caller reports it and keeps going with the window unchanged.
#[derive(Clone, Copy, Debug, PartialEq, Eq, Structural)]
pub enum SignalError {
    /// A zero capacity, zero step, zero core count, or a configuration whose
    /// times cannot be represented; rejected at construction.
    ConfigurationError,
    /// The metrics reading for this tick was missing or unusable; the tick is
    /// skipped and the previous points are retained.
    SampleUnavailable,
    /// Total memory was reported as zero, so no percentage can be formed.
    DivideByZero,
}

/// One observation: a logical timestamp and the metric's value at that time.
#[derive(Clone, Copy, Debug, PartialEq, Eq, Structural)]
pub struct Sample {
    pub time: u64,
    pub value: u64,
}

/// Builds the pre-fill contents of a window: `len` pairs whose times climb
/// from `0` by `step` and whose values are all `init_value`.
pub fn init_constant_vec<T: Copy>(len: usize, init_value: T, step: u64) -> (r: Vec<(u64, T)>)
    requires
        len as int * step as int <= u64::MAX as int,
    ensures
        r@.len() == len,
        forall|i: int| 0 <= i < len ==> (#[trigger] r@[i]).0 == i * (step as int),
        forall|i: int| 0 <= i < len ==> (#[trigger] r@[i]).1 == init_value,
{
    let mut r: Vec<(u64, T)> = Vec::new();
    let mut t: u64 = 0;
    let mut i: usize = 0;
    while i < len
        invariant
            i <= len,
            len as int * step as int <= u64::MAX as int,
            t == i as int * step as int,
            r@.len() == i,
            forall|k: int| 0 <= k < i ==> (#[trigger] r@[k]).0 == k * (step as int),
            forall|k: int| 0 <= k < i ==> (#[trigger] r@[k]).1 == init_value,
        decreases len - i,
    {
        r.push((t, init_value));
        proof {
            assert((i + 1) as int * step as int == i as int * step as int + step as int)
                by (nonlinear_arith);
            assert((i + 1) as int * step as int <= len as int * step as int)
                by (nonlinear_arith)
                requires
                    i + 1 <= len,
                    step as int >= 0,
            ;
        }
        t = t + step;
        i = i + 1;
    }
    r
}

/// A fixed-capacity, time-ordered buffer of samples, oldest first.
pub struct Window {
    pub points: Vec<Sample>,
    pub step: u64,
}

impl Window {
    /// Well-formedness: the window is never empty, the step is positive, and
    /// consecutive samples are exactly one step of logical time apart.
    pub open spec fn wf(self) -> bool {
        &&& self.points@.len() >= 1
        &&& self.step >= 1
        &&& forall|i: int| 0 <= i < self.points@.len() - 1 ==>
                (#[trigger] self.points@[i + 1]).time == self.points@[i].time + self.step
    }

    /// The timestamp of the oldest sample.
    pub open spec fn first_time(self) -> int {
        self.points@[0].time as int
    }

    /// The timestamp of the newest sample.
    pub open spec fn last_time(self) -> int {
        self.points@[self.points@.len() - 1].time as int
    }

    /// Builds a window of `capacity` samples with times `0, step, 2*step, ...`
    /// and all values equal to `fill_value`.
    pub fn initialize(capacity: usize, fill_value: u64, step: u64) -> (r: Window)
        requires
            capacity >= 1,
            step >= 1,
            capacity as int * step as int <= u64::MAX as int,
        ensures
            r.wf(),
            r.step == step,
            r.points@.len() == capacity,
            forall|i: int| 0 <= i < capacity ==>
                (#[trigger] r.points@[i]).time == i * (step as int),
            forall|i: int| 0 <= i < capacity ==> (#[trigger] r.points@[i]).value == fill_value,
    {
        let pairs = init_constant_vec::<u64>(capacity, fill_value, step);
        let mut points: Vec<Sample> = Vec::new();
        let mut i: usize = 0;
        while i < capacity
            invariant
                i <= capacity,
                capacity == pairs@.len(),
                points@.len() == i,
                forall|k: int| 0 <= k < capacity ==> (#[trigger] pairs@[k]).0 == k * (step as int),
                forall|k: int| 0 <= k < capacity ==> (#[trigger] pairs@[k]).1 == fill_value,
                forall|k: int| 0 <= k < i ==>
                    (#[trigger] points@[k]).time == k * (step as int)
                        && points@[k].value == fill_value,
            decreases capacity - i,
        {
            let (t, v) = pairs[i];
            points.push(Sample { time: t, value: v });
            i = i + 1;
        }
        let r = Window { points, step };
        proof {
            assert forall|i: int| 0 <= i < r.points@.len() - 1 implies
                (#[trigger] r.points@[i + 1]).time == r.points@[i].time + r.step
            by {
                assert((i + 1) * (step as int) == i * (step as int) + step as int)
                    by (nonlinear_arith);
            }
        }
        r
    }

    /// Evicts the `n` oldest samples and appends `n` new ones whose values
    /// come from `new_values` in order and whose times continue the series by
    /// `step` increments past the previous newest sample.  The length never
    /// changes, so the window stays exactly as full as it was built.
    pub fn advance(&mut self, new_values: &Vec<u64>, n: usize)
        requires
            old(self).wf(),
            n <= old(self).points@.len(),
            n <= new_values@.len(),
            old(self).last_time() + n as int * old(self).step as int <= u64::MAX as int,
        ensures
            final(self).wf(),
            final(self).step == old(self).step,
            final(self).points@.len() == old(self).points@.len(),
            forall|i: int| 0 <= i < old(self).points@.len() - n ==>
                (#[trigger] final(self).points@[i]) == old(self).points@[i + n],
            forall|i: int|
                old(self).points@.len() - n <= i < old(self).points@.len() ==>
                    (#[trigger] final(self).points@[i]).value
                        == new_values@[i - (old(self).points@.len() - n)],
            forall|i: int|
                old(self).points@.len() - n <= i < old(self).points@.len() ==>
                    (#[trigger] final(self).points@[i]).time
                        == old(self).last_time()
                            + (i - (old(self).points@.len() - n) + 1) * (old(self).step as int),
    {
        let ghost pre = *self;
        let len = self.points.len();
        let base: u64 = self.points[len - 1].time;
        let mut j: usize = 0;
        while j < n
            invariant
                j <= n,
                n <= pre.points@.len(),
                self.points@ == pre.points@.skip(j as int),
                self.step == pre.step,
            decreases n - j,
        {
            self.points.remove(0);
            proof {
                assert(pre.points@.skip(j as int).remove(0) =~= pre.points@.skip(j + 1));
            }
            j = j + 1;
        }
        let mut t: u64 = base;
        let mut j: usize = 0;
        while j < n
            invariant
                j <= n,
                n <= new_values@.len(),
                n <= pre.points@.len(),
                pre.wf(),
                base == pre.last_time(),
                pre.last_time() + n as int * pre.step as int <= u64::MAX as int,
                t == pre.last_time() + j as int * pre.step as int,
                self.step == pre.step,
                self.points@.len() == pre.points@.len() - n + j,
                forall|i: int| 0 <= i < pre.points@.len() - n ==>
                    (#[trigger] self.points@[i]) == pre.points@[i + n],
                forall|i: int|
                    pre.points@.len() - n <= i < pre.points@.len() - n + j ==>
                        (#[trigger] self.points@[i]).value
                            == new_values@[i - (pre.points@.len() - n)],
                forall|i: int|
                    pre.points@.len() - n <= i < pre.points@.len() - n + j ==>
                        (#[trigger] self.points@[i]).time
                            == pre.last_time()
                                + (i - (pre.points@.len() - n) + 1) * (pre.step as int),
            decreases n - j,
        {
            proof {
                assert((j + 1) as int * pre.step as int
                    == j as int * pre.step as int + pre.step as int) by (nonlinear_arith);
                assert((j + 1) as int * pre.step as int <= n as int * pre.step as int)
                    by (nonlinear_arith)
                    requires
                        j + 1 <= n,
                        pre.step as int >= 0,
                ;
            }
            let v = new_values[j];
            t = t + self.step;
            self.points.push(Sample { time: t, value: v });
            j = j + 1;
        }
        proof {
            assert forall|i: int| 0 <= i < final(self).points@.len() - 1 implies
                (#[trigger] final(self).points@[i + 1]).time
                    == final(self).points@[i].time + final(self).step
            by {
                let m = pre.points@.len() - n;
                if i + 1 < m {
                    assert(final(self).points@[i] == pre.points@[i + n]);
                    assert(final(self).points@[i + 1] == pre.points@[i + n + 1]);
                    assert(pre.points@[(i + n) + 1].time
                        == pre.points@[i + n].time + pre.step);
                } else if i + 1 == m {
                    // the last kept sample meets the first appended one
                    assert(final(self).points@[i] == pre.points@[i + n]);
                    assert(final(self).points@[i + 1].time
                        == pre.last_time() + 1 * (pre.step as int));
                    lemma_window_last_time(pre);
                    assert(pre.points@[i + n].time as int
                        == pre.first_time() + (i + n) * (pre.step as int));
                    assert(pre.last_time()
                        == pre.first_time() + (pre.points@.len() - 1) * (pre.step as int));
                    assert(i + n == pre.points@.len() - 1);
                } else {
                    let a = i - m;
                    assert(final(self).points@[i].time
                        == pre.last_time() + (a + 1) * (pre.step as int));
                    assert(final(self).points@[i + 1].time
                        == pre.last_time() + (a + 2) * (pre.step as int));
                    assert((a + 2) * (pre.step as int)
                        == (a + 1) * (pre.step as int) + pre.step as int) by (nonlinear_arith);
                }
            }
        }
    }

    /// The guarded form of [`Self::advance`] for general-purpose use: an
    /// advance by more samples than the window holds, by more samples than
    /// values were supplied, or past the largest representable time is
    /// rejected with an error and leaves the window untouched.
    pub fn try_advance(&mut self, new_values: &Vec<u64>, n: usize) -> (r: Result<(), SignalError>)
        requires
            old(self).wf(),
        ensures
            final(self).wf(),
            r is Err <==> (n > old(self).points@.len()
                || n > new_values@.len()
                || old(self).last_time() + n as int * old(self).step as int
                    > u64::MAX as int),
            r is Err ==> r == Err::<(), SignalError>(SignalError::ConfigurationError)
                && *final(self) == *old(self),
            r is Ok ==> {
                &&& final(self).step == old(self).step
                &&& final(self).points@.len() == old(self).points@.len()
                &&& forall|i: int| 0 <= i < old(self).points@.len() - n ==>
                        (#[trigger] final(self).points@[i]) == old(self).points@[i + n]
                &&& forall|i: int|
                        old(self).points@.len() - n <= i < old(self).points@.len() ==>
                            (#[trigger] final(self).points@[i]).value
                                == new_values@[i - (old(self).points@.len() - n)]
                &&& forall|i: int|
                        old(self).points@.len() - n <= i < old(self).points@.len() ==>
                            (#[trigger] final(self).points@[i]).time
                                == old(self).last_time()
                                    + (i - (old(self).points@.len() - n) + 1)
                                        * (old(self).step as int)
            },
    {
        if n > self.points.len() || n > new_values.len() {
            return Err(SignalError::ConfigurationError);
        }
        let last = self.points[self.points.len() - 1].time;
        // reject an advance whose new times would not fit in a timestamp
        match (n as u64).checked_mul(self.step) {
            None => Err(SignalError::ConfigurationError),
            Some(growth) => {
                if growth > u64::MAX - last {
                    Err(SignalError::ConfigurationError)
                } else {
                    self.advance(new_values, n);
                    Ok(())
                }
            },
        }
    }

    /// The chart-axis bounds of the window: the oldest and the newest time.
    pub fn time_range(&self) -> (r: [u64; 2])
        requires
            self.wf(),
        ensures
            r[0] == self.first_time(),
            r[1] == self.last_time(),
    {
        [self.points[0].time, self.points[self.points.len() - 1].time]
    }
}

/// Every well-formed window's sample times are an arithmetic progression:
/// the sample at position `i` sits exactly `i` steps after the oldest one.
pub proof fn lemma_window_times(w: Window)
    requires
        w.wf(),
    ensures
        forall|i: int| 0 <= i < w.points@.len() ==>
            (#[trigger] w.points@[i]).time == w.first_time() + i * (w.step as int),
{
    assert forall|i: int| 0 <= i < w.points@.len() implies
        (#[trigger] w.points@[i]).time == w.first_time() + i * (w.step as int)
    by {
        lemma_window_time_at(w, i);
    }
}

/// The sample at position `i` of a well-formed window sits exactly `i` steps
/// after the oldest one.
proof fn lemma_window_time_at(w: Window, i: int)
    requires
        w.wf(),
        0 <= i < w.points@.len(),
    ensures
        w.points@[i].time == w.first_time() + i * (w.step as int),
    decreases i,
{
    if i > 0 {
        lemma_window_time_at(w, i - 1);
        assert(w.points@[(i - 1) + 1].time == w.points@[i - 1].time + w.step);
        assert(i * (w.step as int) == (i - 1) * (w.step as int) + w.step as int)
            by (nonlinear_arith);
    } else {
        assert(i * (w.step as int) == 0) by (nonlinear_arith)
            requires i == 0,
        ;
    }
}

/// The newest sample of a well-formed window sits `len - 1` steps after the
/// oldest one.
pub proof fn lemma_window_last_time(w: Window)
    requires
        w.wf(),
    ensures
        w.last_time() == w.first_time() + (w.points@.len() - 1) * (w.step as int),
{
    lemma_window_time_at(w, w.points@.len() - 1);
}

} // verus!
