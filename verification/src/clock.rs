use vstd::prelude::*;
use vstd::arithmetic::div_mod::{lemma_add_mod_noop_right, lemma_mod_add_multiples_vanish, lemma_small_mod, lemma_mod_self_0};

verus! {

/// Where the clock stands after `k` ticks from `clock`, counting modulo `rate`.
pub open spec fn clock_after(clock: int, rate: int, k: int) -> int {
    (clock + k) % rate
}

/// Counts samples modulo the sample rate; the phase of a sine oscillator is
/// `clock / rate` of a second.
pub struct SampleClock {
    clock: u64,
    rate: u64,
}

impl SampleClock {
    /// The current count, in `0 .. rate`.
    pub closed spec fn clock(self) -> nat {
        self.clock as nat
    }

    /// Samples per second.
    pub closed spec fn rate(self) -> nat {
        self.rate as nat
    }

    /// The count stays below a positive rate.
    pub closed spec fn wf(self) -> bool {
        0 < self.rate && self.clock < self.rate
    }

    /// A clock at zero for the given sample rate.
    pub fn new(sample_rate: u64) -> (c: SampleClock)
        requires
            sample_rate > 0,
        ensures
            c.wf(),
            c.clock() == 0,
            c.rate() == sample_rate,
    {
        SampleClock { clock: 0, rate: sample_rate }
    }

    /// The current count.
    pub fn current(&self) -> (c: u64)
        ensures
            c == self.clock(),
    {
        self.clock
    }

    /// The sample rate.
    pub fn sample_rate(&self) -> (r: u64)
        ensures
            r == self.rate(),
    {
        self.rate
    }

    /// Advances by one sample, wrapping at the rate, and returns the new count.
    pub fn tick(&mut self) -> (c: u64)
        requires
            old(self).wf(),
        ensures
            final(self).wf(),
            final(self).rate() == old(self).rate(),
            c == final(self).clock(),
            c == clock_after(old(self).clock() as int, old(self).rate() as int, 1),
            c == (old(self).clock() + 1) % old(self).rate(),
            c == if old(self).clock() + 1 == old(self).rate() { 0 } else { old(self).clock() + 1 },
    {
        proof {
            if self.clock + 1 < self.rate {
                lemma_small_mod((self.clock + 1) as nat, self.rate as nat);
            } else {
                lemma_mod_self_0(self.rate as int);
            }
        }
        self.clock = (self.clock + 1) % self.rate;
        self.clock
    }

    /// Ticks once per sample of a block of `n` samples and returns the counts
    /// in order: the `i`-th is the count after `i + 1` ticks.
    pub fn fill(&mut self, n: usize) -> (counts: Vec<u64>)
        requires
            old(self).wf(),
        ensures
            final(self).wf(),
            final(self).rate() == old(self).rate(),
            final(self).clock() == clock_after(old(self).clock() as int, old(self).rate() as int, n as int),
            counts.len() == n,
            forall|i: int| 0 <= i < n ==>
                #[trigger] counts[i] == clock_after(old(self).clock() as int, old(self).rate() as int, i + 1),
            forall|i: int| 0 <= i < n ==>
                #[trigger] counts[i] == (old(self).clock() + i + 1) % (old(self).rate() as int),
            final(self).clock() == (old(self).clock() + n) % (old(self).rate() as int),
    {
        let ghost c0 = self.clock as int;
        let ghost r = self.rate as int;
        let mut counts: Vec<u64> = Vec::new();
        let mut i: usize = 0;
        proof {
            lemma_small_mod(c0 as nat, r as nat);
        }
        while i < n
            invariant
                self.wf(),
                self.rate == r,
                0 < r,
                0 <= c0 < r,
                i <= n,
                counts.len() == i,
                self.clock == clock_after(c0, r, i as int),
                forall|j: int| 0 <= j < i ==> #[trigger] counts[j] == clock_after(c0, r, j + 1),
            decreases n - i,
        {
            let c = self.tick();
            proof {
                lemma_add_mod_noop_right(1, c0 + i, r);
            }
            counts.push(c);
            i = i + 1;
        }
        counts
    }
}

/// One tick moves the count on by exactly one sample, wrapping to zero at the
/// rate; `k` ticks that stay below the rate move it on by exactly `k`.
pub proof fn lemma_tick_steps_by_one(clock: int, rate: int, k: int)
    requires
        0 < rate,
        0 <= clock < rate,
        0 <= k,
    ensures
        clock_after(clock, rate, 1) == if clock + 1 == rate { 0 } else { clock + 1 },
        clock + k < rate ==> clock_after(clock, rate, k) == clock + k,
        clock_after(clock, rate, k) == (clock + k) % rate,
{
    if clock + 1 == rate {
        lemma_mod_self_0(rate);
    } else {
        lemma_small_mod((clock + 1) as nat, rate as nat);
    }
    if clock + k < rate {
        lemma_small_mod((clock + k) as nat, rate as nat);
    }
}

/// Ticking `k` times and then `j` times leaves the clock where `k + j` ticks
/// would.
pub proof fn lemma_ticks_compose(clock: int, rate: int, k: int, j: int)
    requires
        0 < rate,
        0 <= clock < rate,
        0 <= k,
        0 <= j,
    ensures
        clock_after(clock_after(clock, rate, k), rate, j) == clock_after(clock, rate, k + j),
{
    lemma_add_mod_noop_right(j, clock + k, rate);
}

/// After exactly `rate` ticks, one second of samples, the clock is back where
/// it started.
pub proof fn lemma_clock_period(clock: int, rate: int, k: int)
    requires
        0 < rate,
        0 <= clock < rate,
        0 <= k,
    ensures
        clock_after(clock, rate, k + rate) == clock_after(clock, rate, k),
        clock_after(clock, rate, rate) == clock,
{
    lemma_mod_add_multiples_vanish(clock + k, rate);
    lemma_mod_add_multiples_vanish(clock, rate);
    lemma_small_mod(clock as nat, rate as nat);
}

} // verus!
