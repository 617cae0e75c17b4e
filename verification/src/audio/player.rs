//! The jitter buffer between the decoder and the audio sink: a bounded
//! queue of sample chunks that the sink's pull callback drains.
use super::decoder::DecodedAudio;
use std::collections::VecDeque;
use vstd::prelude::*;

verus! {

/// The sample lists of some chunks.
pub open spec fn chunk_samples<S>(q: Seq<DecodedAudio<S>>) -> Seq<Seq<S>> {
    Seq::new(q.len(), |i: int| q[i].samples@)
}

/// How many samples some chunks hold together.
pub open spec fn total_samples<S>(chunks: Seq<Seq<S>>) -> nat
    decreases chunks.len(),
{
    if chunks.len() == 0 {
        0
    } else {
        chunks[0].len() + total_samples(chunks.drop_first())
    }
}

/// The chunks that stay when the oldest are discarded until the rest fits
/// into `max` samples.
pub open spec fn trimmed<S>(chunks: Seq<Seq<S>>, max: nat) -> Seq<Seq<S>>
    decreases chunks.len(),
{
    if chunks.len() > 0 && total_samples(chunks) > max {
        trimmed(chunks.drop_first(), max)
    } else {
        chunks
    }
}

/// The first `count` samples of the chunks, fewer if they hold fewer, and
/// the chunks that are left. A chunk that is used up is removed; one that
/// is used in part keeps its rest.
pub open spec fn take_samples<S>(chunks: Seq<Seq<S>>, count: nat) -> (Seq<S>, Seq<Seq<S>>)
    decreases chunks.len(),
{
    if count == 0 || chunks.len() == 0 {
        (Seq::empty(), chunks)
    } else if chunks[0].len() <= count {
        let later = take_samples(chunks.drop_first(), (count - chunks[0].len()) as nat);
        (chunks[0] + later.0, later.1)
    } else {
        (
            chunks[0].subrange(0, count as int),
            seq![chunks[0].subrange(count as int, chunks[0].len() as int)] + chunks.drop_first(),
        )
    }
}

/// The number of samples that `ms` milliseconds of audio hold:
/// `ms * sample_rate * channels / 1000`.
pub open spec fn samples_for(ms: u32, sample_rate: u32, channels: u16) -> nat {
    (ms as nat * sample_rate as nat * channels as nat) / 1000
}

/// Appending a chunk adds its samples to the total.
pub proof fn lemma_total_push<S>(chunks: Seq<Seq<S>>, c: Seq<S>)
    ensures
        total_samples(chunks.push(c)) == total_samples(chunks) + c.len(),
    decreases chunks.len(),
{
    if chunks.len() == 0 {
        assert(chunks.push(c).drop_first() =~= chunks);
    } else {
        lemma_total_push(chunks.drop_first(), c);
        assert(chunks.push(c).drop_first() =~= chunks.drop_first().push(c));
    }
}

/// Taking samples gives at most `count` of them, and what is taken and
/// what is left add up to what was there.
pub proof fn lemma_take_samples<S>(chunks: Seq<Seq<S>>, count: nat)
    ensures
        take_samples(chunks, count).0.len() <= count,
        take_samples(chunks, count).0.len() + total_samples(take_samples(chunks, count).1)
            == total_samples(chunks),
        take_samples(chunks, count).0.len() < count ==> take_samples(chunks, count).1.len() == 0,
    decreases chunks.len(),
{
    if count == 0 || chunks.len() == 0 {
    } else if chunks[0].len() <= count {
        lemma_take_samples(chunks.drop_first(), (count - chunks[0].len()) as nat);
    } else {
        let rest = seq![chunks[0].subrange(count as int, chunks[0].len() as int)]
            + chunks.drop_first();
        assert(rest.drop_first() =~= chunks.drop_first());
    }
}

/// Jitter buffer for handling timing jitter between decoder and sink.
pub struct JitterBuffer<S> {
    buffer: VecDeque<DecodedAudio<S>>,
    current_size_samples: usize,
    max_size_samples: usize,
    silence: S,
}

impl<S: Copy> JitterBuffer<S> {
    /// The sample lists of the buffered chunks, oldest first.
    pub closed spec fn chunks(&self) -> Seq<Seq<S>> {
        chunk_samples(self.buffer@)
    }

    /// The number of samples that the buffer is sized for.
    pub closed spec fn capacity(&self) -> nat {
        self.max_size_samples as nat
    }

    /// The sample that stands for silence.
    pub closed spec fn silence(&self) -> S {
        self.silence
    }

    /// The buffer's invariant: it knows how many samples it holds.
    pub closed spec fn wf(&self) -> bool {
        self.current_size_samples == total_samples(chunk_samples(self.buffer@))
    }

    /// An empty buffer sized for `max_size_ms` milliseconds of audio at the
    /// given rate and channel count; a size beyond the machine's largest
    /// number is cut to that. `silence` is the sample that fills what the
    /// buffer cannot deliver.
    pub fn new(max_size_ms: u32, sample_rate: u32, channels: u16, silence: S) -> (b: Self)
        ensures
            b.wf(),
            b.chunks() == Seq::<Seq<S>>::empty(),
            b.silence() == silence,
            b.capacity() == if samples_for(max_size_ms, sample_rate, channels) > usize::MAX {
                usize::MAX as nat
            } else {
                samples_for(max_size_ms, sample_rate, channels)
            },
    {
        assert((max_size_ms as int) * (sample_rate as int) <= 0xFFFF_FFFF * 0xFFFF_FFFF)
            by (nonlinear_arith)
            requires
                0 <= max_size_ms <= 0xFFFF_FFFF,
                0 <= sample_rate <= 0xFFFF_FFFF,
        ;
        let product: u128 = (max_size_ms as u128) * (sample_rate as u128);
        assert((product as int) * (channels as int) <= 0xFFFF_FFFF * 0xFFFF_FFFF * 0xFFFF)
            by (nonlinear_arith)
            requires
                0 <= product <= 0xFFFF_FFFF * 0xFFFF_FFFF,
                0 <= channels <= 0xFFFF,
        ;
        let wide: u128 = product * (channels as u128) / 1000;
        let max_size_samples: usize = if wide > usize::MAX as u128 {
            usize::MAX
        } else {
            wide as usize
        };
        let b = JitterBuffer {
            buffer: VecDeque::new(),
            current_size_samples: 0,
            max_size_samples,
            silence,
        };
        assert(b.chunks() =~= Seq::<Seq<S>>::empty());
        b
    }

    /// How many samples are buffered, and how many the buffer is sized for.
    pub fn level(&self) -> (l: (usize, usize))
        requires
            self.wf(),
        ensures
            l.0 == total_samples(self.chunks()),
            l.1 == self.capacity(),
    {
        (self.current_size_samples, self.max_size_samples)
    }

    /// Adds a chunk. While the buffer then holds more samples than it is
    /// sized for, the oldest chunk is discarded.
    pub fn push(&mut self, audio: DecodedAudio<S>)
        requires
            old(self).wf(),
            total_samples(old(self).chunks()) + audio.samples@.len() <= usize::MAX,
        ensures
            final(self).wf(),
            final(self).capacity() == old(self).capacity(),
            final(self).silence() == old(self).silence(),
            final(self).chunks() == trimmed(
                old(self).chunks().push(audio.samples@),
                old(self).capacity(),
            ),
    {
        proof {
            lemma_total_push(self.chunks(), audio.samples@);
        }
        let ghost added = self.chunks().push(audio.samples@);
        self.current_size_samples = self.current_size_samples + audio.samples.len();
        self.buffer.push_back(audio);
        assert(self.chunks() =~= added);
        while self.current_size_samples > self.max_size_samples && self.buffer.len() > 0
            invariant
                self.wf(),
                self.max_size_samples == old(self).max_size_samples,
                self.silence == old(self).silence,
                trimmed(self.chunks(), self.capacity()) == trimmed(added, self.capacity()),
            decreases self.buffer@.len(),
        {
            let ghost before = self.chunks();
            match self.buffer.pop_front() {
                Some(oldest) => {
                    assert(self.chunks() =~= before.drop_first());
                    assert(before[0] == oldest.samples@);
                    self.current_size_samples = self.current_size_samples - oldest.samples.len();
                },
                None => {},
            }
        }
    }

    /// Hands out exactly `count` samples: the oldest that the buffer holds,
    /// in order, followed by silence where it holds fewer.
    pub fn pop_samples(&mut self, count: usize) -> (out: Vec<S>)
        requires
            old(self).wf(),
        ensures
            final(self).wf(),
            final(self).capacity() == old(self).capacity(),
            final(self).silence() == old(self).silence(),
            out@.len() == count,
            final(self).chunks() == take_samples(old(self).chunks(), count as nat).1,
            out@ == take_samples(old(self).chunks(), count as nat).0 + Seq::new(
                (count - take_samples(old(self).chunks(), count as nat).0.len()) as nat,
                |i: int| old(self).silence(),
            ),
    {
        let ghost start = self.chunks();
        let ghost goal = take_samples(start, count as nat);
        proof {
            lemma_take_samples(start, count as nat);
        }
        let mut out: Vec<S> = Vec::with_capacity(count);
        let mut dry = false;
        while out.len() < count && !dry
            invariant
                self.wf(),
                self.max_size_samples == old(self).max_size_samples,
                self.silence == old(self).silence,
                out@.len() <= count,
                goal == take_samples(start, count as nat),
                goal.0 =~= out@ + take_samples(self.chunks(), (count - out@.len()) as nat).0,
                goal.1 == take_samples(self.chunks(), (count - out@.len()) as nat).1,
                dry ==> self.chunks().len() == 0,
            decreases (if dry { 0int } else { 1int }) + self.buffer@.len(), count - out@.len(),
        {
            let ghost cur = self.chunks();
            let ghost need = (count - out@.len()) as nat;
            let ghost so_far = out@;
            match self.buffer.pop_front() {
                None => {
                    dry = true;
                },
                Some(chunk) => {
                    assert(self.chunks() =~= cur.drop_first());
                    assert(cur[0] == chunk.samples@);
                    let want = count - out.len();
                    let have = chunk.samples.len();
                    self.current_size_samples = self.current_size_samples - have;
                    if have <= want {
                        let mut i: usize = 0;
                        while i < have
                            invariant
                                0 <= i <= have,
                                have == chunk.samples@.len(),
                                out@ =~= so_far + chunk.samples@.subrange(0, i as int),
                            decreases have - i,
                        {
                            out.push(chunk.samples[i]);
                            i = i + 1;
                        }
                        assert(chunk.samples@.subrange(0, have as int) =~= chunk.samples@);
                    } else {
                        let mut i: usize = 0;
                        while i < want
                            invariant
                                0 <= i <= want < have,
                                have == chunk.samples@.len(),
                                out@ =~= so_far + chunk.samples@.subrange(0, i as int),
                            decreases want - i,
                        {
                            out.push(chunk.samples[i]);
                            i = i + 1;
                        }
                        let mut rest: Vec<S> = Vec::with_capacity(have - want);
                        let mut j: usize = want;
                        while j < have
                            invariant
                                want <= j <= have,
                                have == chunk.samples@.len(),
                                rest@ =~= chunk.samples@.subrange(want as int, j as int),
                            decreases have - j,
                        {
                            rest.push(chunk.samples[j]);
                            j = j + 1;
                        }
                        let ghost tail = self.chunks();
                        let kept = DecodedAudio {
                            pts: chunk.pts,
                            samples: rest,
                            sample_rate: chunk.sample_rate,
                            channels: chunk.channels,
                        };
                        self.buffer.push_front(kept);
                        self.current_size_samples = self.current_size_samples + (have - want);
                        proof {
                            assert(self.chunks() =~= seq![rest@] + tail);
                            assert(self.chunks().drop_first() =~= tail);
                        }
                    }
                },
            }
        }
        let ghost taken = out@;
        while out.len() < count
            invariant
                taken.len() <= out@.len() <= count,
                self.silence == old(self).silence,
                out@ =~= taken + Seq::new((out@.len() - taken.len()) as nat, |i: int| self.silence),
            decreases count - out@.len(),
        {
            out.push(self.silence);
        }
        out
    }

    /// Whether the buffer is less than a quarter full.
    pub fn underrun_risk(&self) -> (risk: bool)
        requires
            self.wf(),
        ensures
            risk == (total_samples(self.chunks()) < self.capacity() / 4),
    {
        self.current_size_samples < self.max_size_samples / 4
    }
}

} // verus!
