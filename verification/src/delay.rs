use vstd::prelude::*;

verus! {

/// The samples that a delay line holding `pending` puts out while it takes in
/// `input`: what it held first, then the input itself, `pending.len()`
/// samples late.
pub open spec fn delayed_output<T>(pending: Seq<T>, input: Seq<T>) -> Seq<T> {
    (pending + input).take(input.len() as int)
}

/// What a delay line holding `pending` holds after taking in `input`: the
/// last `pending.len()` samples of everything it has seen.
pub open spec fn delayed_state<T>(pending: Seq<T>, input: Seq<T>) -> Seq<T> {
    (pending + input).skip(input.len() as int)
}

/// A fixed-length delay line over a ring buffer: each sample that goes in
/// comes out again exactly `delay()` samples later.
pub struct DelayLine<T> {
    buffer: Vec<T>,
    position: usize,
}

impl<T: Copy> DelayLine<T> {
    /// The length of the delay, in samples.
    pub closed spec fn delay(self) -> nat {
        self.buffer@.len()
    }

    /// The read/write index into the ring buffer stays inside it.
    pub closed spec fn wf(self) -> bool {
        if self.buffer@.len() == 0 {
            self.position == 0
        } else {
            self.position < self.buffer@.len()
        }
    }

    /// The samples waiting to come out, oldest first.
    pub closed spec fn pending(self) -> Seq<T> {
        self.buffer@.subrange(self.position as int, self.buffer@.len() as int)
            + self.buffer@.subrange(0, self.position as int)
    }

    /// A delay line of `delay_samples` samples that holds `silence` in every
    /// slot.
    pub fn new(delay_samples: usize, silence: T) -> (d: DelayLine<T>)
        ensures
            d.wf(),
            d.delay() == delay_samples,
            d.pending() == Seq::new(delay_samples as nat, |_i: int| silence),
    {
        let mut buffer: Vec<T> = Vec::new();
        let mut i: usize = 0;
        while i < delay_samples
            invariant
                i <= delay_samples,
                buffer@ == Seq::new(i as nat, |_i: int| silence),
            decreases delay_samples - i,
        {
            buffer.push(silence);
            i = i + 1;
        }
        let d = DelayLine { buffer, position: 0 };
        assert(d.pending() =~= Seq::new(delay_samples as nat, |_i: int| silence));
        d
    }

    /// The length of the delay, in samples.
    pub fn delay_samples(&self) -> (n: usize)
        ensures
            n == self.delay(),
    {
        self.buffer.len()
    }

    /// Takes in one sample and puts out the one that went in `delay()`
    /// samples earlier.
    pub fn process_sample(&mut self, input: T) -> (out: T)
        requires
            old(self).wf(),
            old(self).delay() > 0,
        ensures
            final(self).wf(),
            final(self).delay() == old(self).delay(),
            out == old(self).pending()[0],
            final(self).pending() == old(self).pending().drop_first().push(input),
    {
        let ghost b0 = self.buffer@;
        let ghost p = self.position as int;
        let n = self.buffer.len();
        let out = self.buffer[self.position];
        self.buffer.set(self.position, input);
        if self.position + 1 == n {
            self.position = 0;
        } else {
            self.position = self.position + 1;
        }
        assert(self.pending() =~= (b0.subrange(p, n as int) + b0.subrange(0, p)).drop_first().push(input));
        out
    }

    /// Takes in a block of samples and puts out as many, each delayed by
    /// `delay()` samples.
    pub fn process_block(&mut self, input: &[T]) -> (out: Vec<T>)
        requires
            old(self).wf(),
            old(self).delay() > 0 || input@.len() == 0,
        ensures
            final(self).wf(),
            final(self).delay() == old(self).delay(),
            out@ == delayed_output(old(self).pending(), input@),
            final(self).pending() == delayed_state(old(self).pending(), input@),
            out@.len() == input@.len(),
            forall|i: int| 0 <= i < input@.len() && i < old(self).delay() ==>
                #[trigger] out@[i] == old(self).pending()[i],
            forall|i: int| old(self).delay() <= i < input@.len() ==>
                #[trigger] out@[i] == input@[i - old(self).delay()],
    {
        let ghost p0 = self.pending();
        let ghost n = self.delay();
        let mut out: Vec<T> = Vec::new();
        let mut i: usize = 0;
        assert(p0 + input@.take(0) =~= p0);
        while i < input.len()
            invariant
                self.wf(),
                self.delay() == n,
                p0.len() == n,
                n > 0 || input@.len() == 0,
                i <= input@.len(),
                out@ == (p0 + input@.take(i as int)).take(i as int),
                self.pending() == (p0 + input@.take(i as int)).skip(i as int),
            decreases input.len() - i,
        {
            let ghost q = p0 + input@.take(i as int);
            let x = input[i];
            let y = self.process_sample(x);
            out.push(y);
            proof {
                assert(p0 + input@.take(i + 1) =~= q.push(x));
                assert(q.push(x).take(i + 1) =~= q.take(i as int).push(q[i as int]));
                assert(q.push(x).skip(i + 1) =~= q.skip(i as int).drop_first().push(x));
            }
            i = i + 1;
        }
        assert(input@.take(input@.len() as int) =~= input@);
        proof {
            lemma_output_is_delayed_input(p0, input@);
        }
        out
    }
}

/// Every sample of a block comes out of the delay line exactly `delay`
/// samples after it went in; the first `delay` samples out are what the line
/// held before.
pub proof fn lemma_output_is_delayed_input<T>(pending: Seq<T>, input: Seq<T>)
    ensures
        delayed_output(pending, input).len() == input.len(),
        forall|i: int| 0 <= i < input.len() && i < pending.len() ==>
            #[trigger] delayed_output(pending, input)[i] == pending[i],
        forall|i: int| pending.len() <= i < input.len() ==>
            #[trigger] delayed_output(pending, input)[i] == input[i - pending.len()],
        delayed_state(pending, input).len() == pending.len(),
        forall|j: int| 0 <= j < pending.len() && input.len() + j < pending.len() ==>
            #[trigger] delayed_state(pending, input)[j] == pending[input.len() + j],
        forall|j: int| 0 <= j < pending.len() && input.len() + j >= pending.len() ==>
            #[trigger] delayed_state(pending, input)[j] == input[input.len() + j - pending.len()],
{
}

/// Taking in one block and then another gives the same output and leaves the
/// same state as taking in the two blocks as one.
pub proof fn lemma_blocks_compose<T>(pending: Seq<T>, a: Seq<T>, b: Seq<T>)
    ensures
        delayed_output(pending, a) + delayed_output(delayed_state(pending, a), b)
            == delayed_output(pending, a + b),
        delayed_state(delayed_state(pending, a), b) == delayed_state(pending, a + b),
{
    assert(delayed_output(pending, a) + delayed_output(delayed_state(pending, a), b)
        =~= delayed_output(pending, a + b));
    assert(delayed_state(delayed_state(pending, a), b) =~= delayed_state(pending, a + b));
}

/// The number of samples in half a second at `sample_rate`: the echo delay.
pub fn half_second_delay(sample_rate: usize) -> (n: usize)
    ensures
        n == sample_rate / 2,
{
    sample_rate / 2
}

} // verus!
