//! Value sources: abstractions that produce a new scalar value on demand,
//! and the generic rolling signal buffer that they feed.

use rand::Rng;
use vstd::prelude::*;

verus! {

/// A source of successive values.  `next` never fails and never blocks; what
/// it may hand back, and how the source's own state may move, is pinned down
/// by each implementor's `can_produce`.
pub trait ValueSource: Sized {
    type Item;

    /// Whether this source is in a state fit to be drawn from.
    spec fn inv(self) -> bool;

    /// Whether drawing from `self` may yield `value` and leave the source in
    /// state `next`.
    spec fn can_produce(self, value: Self::Item, next: Self) -> bool;

    fn next(&mut self) -> (r: Self::Item)
        requires
            old(self).inv(),
        ensures
            final(self).inv(),
            old(self).can_produce(r, *final(self)),
    ;
}

/// A source whose `k` successive draws can yield exactly the values of
/// `values`, moving it from state `s0` to state `s1`.
pub open spec fn produces_seq<S: ValueSource>(s0: S, values: Seq<S::Item>, s1: S) -> bool
    decreases values.len(),
{
    if values.len() == 0 {
        s0 == s1
    } else {
        exists|mid: S| s0.can_produce(values[0], mid) && produces_seq(mid, values.skip(1), s1)
    }
}

/// Drawing once more extends a produced run by one value at its end.
pub proof fn lemma_produces_seq_snoc<S: ValueSource>(
    s0: S,
    values: Seq<S::Item>,
    s1: S,
    v: S::Item,
    s2: S,
)
    requires
        produces_seq(s0, values, s1),
        s1.can_produce(v, s2),
    ensures
        produces_seq(s0, values.push(v), s2),
    decreases values.len(),
{
    if values.len() == 0 {
        assert(s0 == s1);
        assert(values.push(v)[0] == v);
        assert(values.push(v).skip(1) =~= Seq::<S::Item>::empty());
        assert(s0.can_produce(v, s2) && produces_seq(s2, values.push(v).skip(1), s2));
    } else {
        let mid = choose|mid: S|
            s0.can_produce(values[0], mid) && produces_seq(mid, values.skip(1), s1);
        lemma_produces_seq_snoc(mid, values.skip(1), s1, v, s2);
        assert(values.push(v).skip(1) =~= values.skip(1).push(v));
        assert(values.push(v)[0] == values[0]);
        assert(s0.can_produce(values.push(v)[0], mid)
            && produces_seq(mid, values.push(v).skip(1), s2));
    }
}

/// A source that always returns the same fixed value; used to fill a rolling
/// window before real data exists.
#[derive(Clone, Copy)]
pub struct ConstantSignal<T: Copy> {
    pub constant: T,
}

impl<T: Copy> ConstantSignal<T> {
    pub fn new(_constant: T) -> (r: Self)
        ensures
            r.constant == _constant,
    {
        Self { constant: _constant }
    }
}

impl<T: Copy> ValueSource for ConstantSignal<T> {
    type Item = T;

    open spec fn inv(self) -> bool {
        true
    }

    open spec fn can_produce(self, value: T, next: Self) -> bool {
        value == self.constant && next == self
    }

    fn next(&mut self) -> (r: T) {
        self.constant
    }
}

/// Relies on rand's `Rng::gen_range` over `lower..upper`: the result is drawn
/// from that half-open range, and the call panics only on an empty range,
/// which the precondition rules out.
#[verifier::external_body]
fn sample_uniform(lower: u64, upper: u64) -> (r: u64)
    requires
        lower < upper,
    ensures
        lower <= r < upper,
{
    rand::thread_rng().gen_range(lower..upper)
}

/// A source that draws each value independently and uniformly from
/// `[lower, upper)`; reproducibility across runs is deliberately not promised.
pub struct RandomSignal {
    pub lower: u64,
    pub upper: u64,
}

impl RandomSignal {
    pub fn new(lower: u64, upper: u64) -> (r: Self)
        requires
            lower < upper,
        ensures
            r.lower == lower,
            r.upper == upper,
    {
        Self { lower, upper }
    }
}

impl ValueSource for RandomSignal {
    type Item = u64;

    open spec fn inv(self) -> bool {
        self.lower < self.upper
    }

    open spec fn can_produce(self, value: u64, next: Self) -> bool {
        self.lower <= value < self.upper && next == self
    }

    fn next(&mut self) -> (r: u64) {
        sample_uniform(self.lower, self.upper)
    }
}

/// A rolling buffer of values fed by a source: each tick evicts the
/// `tick_rate` oldest values and appends as many fresh draws.
pub struct Signal<S: ValueSource> {
    pub source: S,
    pub points: Vec<S::Item>,
    pub tick_rate: usize,
}

impl<S: ValueSource> Signal<S> {
    /// One tick: the `tick_rate` oldest values leave, the remaining ones keep
    /// their order, and `tick_rate` values freshly drawn from the source are
    /// appended at the tail; the length never changes.
    pub fn on_tick(&mut self)
        requires
            old(self).source.inv(),
            old(self).tick_rate <= old(self).points@.len(),
        ensures
            final(self).source.inv(),
            final(self).tick_rate == old(self).tick_rate,
            final(self).points@.len() == old(self).points@.len(),
            forall|i: int| 0 <= i < old(self).points@.len() - old(self).tick_rate ==>
                (#[trigger] final(self).points@[i])
                    == old(self).points@[i + old(self).tick_rate],
            produces_seq(
                old(self).source,
                final(self).points@.skip(
                    old(self).points@.len() - old(self).tick_rate as int,
                ),
                final(self).source,
            ),
    {
        let ghost pre = *self;
        let n = self.tick_rate;
        let mut j: usize = 0;
        while j < n
            invariant
                j <= n,
                n <= pre.points@.len(),
                self.points@ == pre.points@.skip(j as int),
                self.source == pre.source,
                self.tick_rate == pre.tick_rate,
            decreases n - j,
        {
            self.points.remove(0);
            proof {
                assert(pre.points@.skip(j as int).remove(0) =~= pre.points@.skip(j + 1));
            }
            j = j + 1;
        }
        let ghost kept = pre.points@.skip(n as int);
        let mut j: usize = 0;
        while j < n
            invariant
                j <= n,
                n <= pre.points@.len(),
                pre.source.inv(),
                self.source.inv(),
                self.tick_rate == pre.tick_rate,
                self.points@.len() == pre.points@.len() - n + j,
                self.points@.subrange(0, pre.points@.len() - n as int) == kept,
                produces_seq(
                    pre.source,
                    self.points@.skip(pre.points@.len() - n as int),
                    self.source,
                ),
            decreases n - j,
        {
            let ghost s_before = self.source;
            let ghost appended_before = self.points@.skip(pre.points@.len() - n as int);
            let v = self.source.next();
            proof {
                lemma_produces_seq_snoc(
                    pre.source,
                    appended_before,
                    s_before,
                    v,
                    self.source,
                );
            }
            self.points.push(v);
            proof {
                assert(self.points@.subrange(0, pre.points@.len() - n as int) =~= kept);
                assert(self.points@.skip(pre.points@.len() - n as int)
                    =~= appended_before.push(v));
            }
            j = j + 1;
        }
        proof {
            assert forall|i: int| 0 <= i < pre.points@.len() - pre.tick_rate implies
                (#[trigger] self.points@[i]) == pre.points@[i + pre.tick_rate]
            by {
                assert(self.points@.subrange(0, pre.points@.len() - n as int)[i]
                    == self.points@[i]);
            }
        }
    }
}

} // verus!
