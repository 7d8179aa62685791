use crate::engine::MAX_BUFFER_SIZE;
use vstd::prelude::*;

verus! {

/// `n` samples of silence.
pub open spec fn silent<S>(n: nat, silence: S) -> Seq<S> {
    Seq::new(n, |i: int| silence)
}

/// What leaves a delay line that holds `pending` while `input` enters: the line
/// gives up its oldest samples first and then, if the input is longer than the
/// line, the input's own beginning.
pub open spec fn delayed<S>(pending: Seq<S>, input: Seq<S>) -> Seq<S> {
    (pending + input).take(input.len() as int)
}

/// What a delay line that held `pending` holds once `input` has entered.
pub open spec fn carried<S>(pending: Seq<S>, input: Seq<S>) -> Seq<S> {
    (pending + input).skip(input.len() as int)
}

/// Place in a ring of `len` slots of the position `at`, which lies less than one
/// turn past the end.
spec fn slot(at: int, len: int) -> int {
    if at >= len {
        at - len
    } else {
        at
    }
}

/// Going to the next slot of a ring is adding one modulo its length.
proof fn lemma_next_slot(at: int, steps: int, len: int)
    requires
        0 < len,
        0 <= at < len,
        at == steps % len,
    ensures
        (at + 1) % len == (steps + 1) % len,
        (at + 1) % len == if at + 1 == len {
            0
        } else {
            at + 1
        },
{
    vstd::arithmetic::div_mod::lemma_add_mod_noop(steps, 1, len);
    vstd::arithmetic::div_mod::lemma_add_mod_noop(at, 1, len);
    vstd::arithmetic::div_mod::lemma_small_mod(at as nat, len as nat);
    if at + 1 == len {
        vstd::arithmetic::div_mod::lemma_mod_self_0(len);
    } else {
        vstd::arithmetic::div_mod::lemma_small_mod((at + 1) as nat, len as nat);
    }
}

/// Delays a signal by a fixed number of samples. Each sample that enters comes
/// out again after `delay()` further samples; until then the line holds it.
pub struct DelayNode<S> {
    delay_samples: usize,
    buffer: Vec<S>,
    write_pos: usize,
}

impl<S: Copy> DelayNode<S> {
    /// The ring is longer than the delay by the longest block, and the write
    /// cursor lies in it.
    pub closed spec fn wf(&self) -> bool {
        &&& self.buffer.len() == self.delay_samples + MAX_BUFFER_SIZE
        &&& self.write_pos < self.buffer.len()
    }

    /// The delay in samples.
    pub closed spec fn delay(&self) -> nat {
        self.delay_samples as nat
    }

    /// Length of the ring that holds the samples: the delay and the longest
    /// block.
    pub open spec fn ring_len(&self) -> nat {
        self.delay() + MAX_BUFFER_SIZE as nat
    }

    /// Place in the ring where the next sample is written.
    pub closed spec fn write_index(&self) -> nat {
        self.write_pos as nat
    }

    /// Place in the ring that is read when a sample has been written: `delay()`
    /// places behind the write index, around the ring.
    pub open spec fn read_index(&self) -> int {
        (self.write_index() + self.ring_len() - self.delay()) % (self.ring_len() as int)
    }

    /// The samples on their way through the line, the oldest first; there are
    /// `delay()` of them.
    pub closed spec fn pending(&self) -> Seq<S> {
        Seq::new(
            self.delay_samples as nat,
            |k: int|
                self.buffer[slot(
                    self.write_pos + MAX_BUFFER_SIZE + k,
                    self.buffer.len() as int,
                )],
        )
    }

    /// A line holds as many samples as it delays by, and its write index lies
    /// in the ring.
    pub proof fn lemma_pending_len(&self)
        requires
            self.wf(),
        ensures
            self.pending().len() == self.delay(),
            self.write_index() < self.ring_len(),
    {
    }

    /// A delay line of `delay_samples` samples that holds silence.
    pub fn new(delay_samples: usize, silence: S) -> (node: Self)
        requires
            delay_samples + MAX_BUFFER_SIZE <= usize::MAX,
        ensures
            node.wf(),
            node.delay() == delay_samples,
            node.write_index() == 0,
            node.pending() == silent(delay_samples as nat, silence),
    {
        let len: usize = delay_samples + MAX_BUFFER_SIZE;
        let mut buffer: Vec<S> = Vec::new();
        while buffer.len() < len
            invariant
                buffer.len() <= len,
                forall|i: int| 0 <= i < buffer.len() ==> buffer[i] == silence,
            decreases len - buffer.len(),
        {
            buffer.push(silence);
        }
        let node = DelayNode { delay_samples, buffer, write_pos: 0 };
        assert(node.pending() =~= silent(delay_samples as nat, silence));
        node
    }

    /// Sends one sample through the line and returns the one that comes out:
    /// the sample is written at the write index, then the read index is read,
    /// then the write index moves on by one.
    fn step(&mut self, sample: S) -> (out: S)
        requires
            old(self).wf(),
        ensures
            final(self).wf(),
            final(self).delay() == old(self).delay(),
            final(self).write_index() == (old(self).write_index() + 1) % old(self).ring_len(),
            out == old(self).pending().push(sample)[0],
            final(self).pending() == old(self).pending().push(sample).skip(1),
    {
        let len: usize = self.buffer.len();
        self.buffer[self.write_pos] = sample;
        let read_pos: usize = if self.write_pos >= self.delay_samples {
            self.write_pos - self.delay_samples
        } else {
            self.write_pos + (len - self.delay_samples)
        };
        assert(read_pos == slot(self.write_pos + MAX_BUFFER_SIZE, len as int));
        assert(read_pos == old(self).read_index()) by {
            let ahead = self.write_pos + len - self.delay_samples;
            if ahead >= len {
                vstd::arithmetic::div_mod::lemma_mod_sub_multiples_vanish(ahead, len as int);
            }
            vstd::arithmetic::div_mod::lemma_small_mod(read_pos as nat, len as nat);
        }
        let out: S = self.buffer[read_pos];
        proof {
            vstd::arithmetic::div_mod::lemma_small_mod(self.write_pos as nat, len as nat);
            lemma_next_slot(self.write_pos as int, self.write_pos as int, len as int);
        }
        self.write_pos = (self.write_pos + 1) % len;
        assert(self.pending() =~= old(self).pending().push(sample).skip(1));
        out
    }

    /// Replaces each sample of `output` by the one that entered the line
    /// `delay()` samples before it, and takes the samples of `output` into the
    /// line. The position is not used.
    pub fn process(&mut self, _sample_pos: u32, output: &mut [S])
        requires
            old(self).wf(),
        ensures
            final(self).wf(),
            final(self).delay() == old(self).delay(),
            final(self).write_index() == (old(self).write_index() + old(output)@.len()) % old(
                self,
            ).ring_len(),
            final(output)@ == delayed(old(self).pending(), old(output)@),
            final(self).pending() == carried(old(self).pending(), old(output)@),
    {
        let n: usize = output.len();
        let ghost before = old(self).pending();
        let ghost input = old(output)@;
        let ghost start = old(self).write_index() as int;
        let ghost ring = old(self).ring_len() as int;
        assert(carried(before, input.take(0)) =~= before);
        proof {
            vstd::arithmetic::div_mod::lemma_small_mod(start as nat, ring as nat);
        }
        for i in 0..n
            invariant
                n == input.len(),
                ring == self.ring_len() > 0,
                self.write_index() == (start + i) % ring,
                output@.len() == n,
                self.wf(),
                self.delay() == old(self).delay(),
                before.len() == self.delay(),
                forall|j: int| 0 <= j < i ==> output@[j] == (before + input)[j],
                forall|j: int| i <= j < n ==> output@[j] == input[j],
                self.pending() == carried(before, input.take(i as int)),
        {
            let sample: S = output[i];
            let ghost held = self.pending();
            proof {
                lemma_next_slot(self.write_index() as int, start + i, ring);
            }
            let out: S = self.step(sample);
            output[i] = out;
            assert(held.push(sample)[0] == (before + input)[i as int]);
            assert(held.push(sample).skip(1) =~= carried(before, input.take(i + 1)));
        }
        assert(input.take(n as int) =~= input);
        assert(output@ =~= delayed(before, input));
    }
}

/// A line that holds silence gives out silence for as many samples as it
/// delays by, and from then on the input, each sample `delay` places later than
/// it came in.
pub proof fn lemma_delay_shifts_input<S>(delay: nat, silence: S, input: Seq<S>, i: int)
    requires
        0 <= i < input.len(),
    ensures
        delayed(silent(delay, silence), input).len() == input.len(),
        delayed(silent(delay, silence), input)[i] == if i < delay {
            silence
        } else {
            input[i - delay]
        },
{
}

/// An impulse comes out once, `delay` samples after it went in: if the input
/// is silent but for the sample at `at`, then what a line that held silence
/// gives out is silent but for the sample at `at + delay`, which is the
/// impulse. With no delay the impulse stays where it is.
pub proof fn lemma_impulse_response<S>(delay: nat, silence: S, input: Seq<S>, at: int, i: int)
    requires
        0 <= at < input.len(),
        0 <= i < input.len(),
        forall|j: int| 0 <= j < input.len() && j != at ==> input[j] == silence,
    ensures
        delayed(silent(delay, silence), input)[i] == if i == at + delay {
            input[at]
        } else {
            silence
        },
{
    lemma_delay_shifts_input(delay, silence, input, i);
}

/// It makes no difference where a signal is cut into blocks: sending `first`
/// and then `second` through a line gives, one after the other, what sending
/// both as one block gives, and leaves the line holding the same samples.
pub proof fn lemma_blocks_join<S>(pending: Seq<S>, first: Seq<S>, second: Seq<S>)
    ensures
        delayed(pending, first) + delayed(carried(pending, first), second) == delayed(
            pending,
            first + second,
        ),
        carried(carried(pending, first), second) == carried(pending, first + second),
        carried(pending, first).len() == pending.len(),
{
    assert(delayed(pending, first) + delayed(carried(pending, first), second) =~= delayed(
        pending,
        first + second,
    ));
    assert(carried(carried(pending, first), second) =~= carried(pending, first + second));
}

} // verus!
