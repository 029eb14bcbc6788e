//! Audio capture conversion and chunking.
//!
//! The hardware callback hands the library raw interleaved samples; here
//! they are downmixed to mono by truncated integer average, resampled to
//! the target rate, and accumulated into fixed-size chunks. The device
//! itself (enumeration, format negotiation, the callback thread) lives
//! outside the library and feeds these functions plain sample buffers.

use vstd::prelude::*;

verus! {

use crate::resample::div_trunc;
use crate::resample::linear_out_len;
use crate::resample::resample;
use crate::resample::spec_resample_linear;

/// The fixed rate the pipeline converts everything to.
pub const TARGET_RATE: u32 = 16000;

/// Sum of a sample sequence, as an unbounded integer.
pub open spec fn sample_sum(s: Seq<i16>) -> int
    decreases s.len(),
{
    if s.len() == 0 {
        0
    } else {
        sample_sum(s.drop_last()) + s.last()
    }
}

/// Number of frames in an interleaved buffer: every started frame counts,
/// so a trailing partial frame still produces one output sample.
pub open spec fn downmix_out_len(n: nat, channels: nat) -> nat
    recommends
        channels > 0,
{
    n / channels + if n % channels == 0 {
        0nat
    } else {
        1nat
    }
}

/// The mono sample for frame `i`: the truncated integer average, over the
/// full channel count, of the samples in that frame.
pub open spec fn downmix_at(s: Seq<i16>, channels: int, i: int) -> i16
    recommends
        channels > 0,
        i >= 0,
{
    let start = i * channels;
    let end = if start + channels <= s.len() {
        start + channels
    } else {
        s.len() as int
    };
    div_trunc(sample_sum(s.subrange(start, end)), channels) as i16
}

/// Whole-buffer downmix to mono.
pub open spec fn spec_downmix(s: Seq<i16>, channels: nat) -> Seq<i16>
    recommends
        channels > 0,
{
    Seq::new(downmix_out_len(s.len(), channels), |i: int| downmix_at(s, channels as int, i))
}

/// The full conversion a capture callback applies: downmix to mono, then
/// resample from the device rate to [`TARGET_RATE`].
pub open spec fn spec_convert(data: Seq<i16>, sample_rate: nat, channels: nat) -> Seq<i16>
    recommends
        channels > 0,
        sample_rate > 0,
{
    let mono = spec_downmix(data, channels);
    if sample_rate == TARGET_RATE as nat {
        mono
    } else {
        spec_resample_linear(mono, sample_rate, TARGET_RATE as nat)
    }
}

proof fn lemma_sample_sum_bounds(s: Seq<i16>)
    ensures
        -32768 * s.len() <= sample_sum(s) <= 32767 * s.len(),
    decreases s.len(),
{
    if s.len() > 0 {
        lemma_sample_sum_bounds(s.drop_last());
    }
}

/// Downmix an interleaved buffer to mono by truncated integer average.
pub fn downmix_to_mono(data: &Vec<i16>, channels: u16) -> (r: Vec<i16>)
    requires
        channels >= 1,
    ensures
        r@ == spec_downmix(data@, channels as nat),
{
    let n = data.len();
    let c = channels as usize;
    proof {
        assert(n as int % c as int != 0 ==> n as int / c as int + 1 <= n) by (nonlinear_arith)
            requires
                c >= 1,
                n >= 0,
        ;
    }
    let out_len: usize = n / c + if n % c == 0 {
        0
    } else {
        1
    };
    let mut out: Vec<i16> = Vec::new();
    let mut i: usize = 0;
    while i < out_len
        invariant
            1 <= c <= 65535,
            c == channels as int,
            n == data@.len(),
            out_len == downmix_out_len(n as nat, c as nat),
            i <= out_len,
            out@.len() == i,
            forall|j: int| 0 <= j < i ==> out@[j] == downmix_at(data@, c as int, j),
        decreases out_len - i,
    {
        proof {
            vstd::arithmetic::div_mod::lemma_fundamental_div_mod(n as int, c as int);
            assert(i * c < n) by (nonlinear_arith)
                requires
                    c >= 1,
                    0 <= i,
                    i < out_len,
                    out_len == n / c + if n % c == 0 {
                        0int
                    } else {
                        1int
                    },
                    n == c * (n / c) + n % c,
                    0 <= n % c < c,
            ;
        }
        let start: usize = i * c;
        let end: usize = if c <= n - start {
            start + c
        } else {
            n
        };
        let ghost frame = data@.subrange(start as int, end as int);
        let mut sum: i32 = 0;
        let mut j: usize = start;
        while j < end
            invariant
                start <= j <= end,
                end <= n == data@.len(),
                end - start <= c <= 65535,
                sum == sample_sum(data@.subrange(start as int, j as int)),
                -32768 * (j - start) <= sum <= 32767 * (j - start),
            decreases end - j,
        {
            proof {
                assert(data@.subrange(start as int, j + 1).drop_last() =~= data@.subrange(
                    start as int,
                    j as int,
                ));
            }
            sum = sum + data[j] as i32;
            j += 1;
        }
        let avg: i32 = if sum >= 0 {
            ((sum as u32) / (c as u32)) as i32
        } else {
            -((((-sum) as u32) / (c as u32)) as i32)
        };
        proof {
            assert(avg == div_trunc(sample_sum(frame), c as int));
            assert(-32768 <= avg <= 32767) by (nonlinear_arith)
                requires
                    c >= 1,
                    avg == div_trunc(sample_sum(frame), c as int),
                    -32768 * c <= -32768 * (frame.len() as int),
                    32767 * (frame.len() as int) <= 32767 * c,
                    -32768 * (frame.len() as int) <= sample_sum(frame) <= 32767 * (frame.len()
                        as int),
            ;
            assert(-32768 * c <= -32768 * (frame.len() as int) && 32767 * (frame.len() as int)
                <= 32767 * c) by (nonlinear_arith)
                requires
                    frame.len() <= c,
            ;
            lemma_sample_sum_bounds(frame);
        }
        out.push(avg as i16);
        i += 1;
    }
    assert(out@ =~= spec_downmix(data@, channels as nat));
    out
}

/// Little-endian byte at position `k` of the encoded stream: even positions
/// carry the low byte of sample `k / 2`, odd positions the high byte.
pub open spec fn le_byte_at(s: Seq<i16>, k: int) -> u8
    recommends
        0 <= k < 2 * s.len(),
{
    if k % 2 == 0 {
        (s[k / 2] as u16 % 256) as u8
    } else {
        (s[k / 2] as u16 / 256) as u8
    }
}

/// A sample sequence encoded as 16-bit little-endian PCM bytes.
pub open spec fn spec_le_bytes(s: Seq<i16>) -> Seq<u8> {
    Seq::new(2 * s.len(), |k: int| le_byte_at(s, k))
}

/// Encode samples as the raw little-endian bytes sent on the wire.
pub fn samples_to_le_bytes(samples: &Vec<i16>) -> (r: Vec<u8>)
    requires
        2 * samples@.len() <= usize::MAX,
    ensures
        r@ == spec_le_bytes(samples@),
{
    let mut out: Vec<u8> = Vec::new();
    let mut i: usize = 0;
    while i < samples.len()
        invariant
            i <= samples@.len(),
            2 * samples@.len() <= usize::MAX,
            out@.len() == 2 * i,
            forall|k: int| 0 <= k < 2 * i ==> out@[k] == le_byte_at(samples@, k),
        decreases samples@.len() - i,
    {
        let u: u16 = samples[i] as u16;
        out.push((u % 256) as u8);
        out.push((u / 256) as u8);
        i += 1;
    }
    assert(out@ =~= spec_le_bytes(samples@));
    out
}

/// Concatenation of a sequence of sample chunks back into one stream.
pub open spec fn concat_all(cs: Seq<Seq<i16>>) -> Seq<i16>
    decreases cs.len(),
{
    if cs.len() == 0 {
        Seq::empty()
    } else {
        concat_all(cs.drop_last()) + cs.last()
    }
}

/// Accumulates converted mono samples and hands out full fixed-size chunks;
/// whatever has not filled a chunk yet stays buffered.
pub struct ChunkAccumulator {
    /// Samples delivered but not yet emitted as a chunk.
    pub buf: Vec<i16>,
    /// The fixed number of samples per emitted chunk.
    pub chunk_size: usize,
}

impl ChunkAccumulator {
    /// A well-formed accumulator never holds a full chunk back.
    pub open spec fn wf(self) -> bool {
        self.chunk_size > 0 && self.buf@.len() < self.chunk_size
    }

    /// An empty accumulator for the given chunk size.
    pub fn new(chunk_size: usize) -> (r: ChunkAccumulator)
        requires
            chunk_size > 0,
        ensures
            r.wf(),
            r.chunk_size == chunk_size,
            r.buf@.len() == 0,
    {
        ChunkAccumulator { buf: Vec::new(), chunk_size }
    }

    /// Append newly converted samples and emit every chunk they complete,
    /// in order. The emitted chunks followed by the retained remainder are
    /// exactly the previously buffered samples followed by the new ones:
    /// nothing is duplicated, dropped, or reordered.
    pub fn push(&mut self, samples: &Vec<i16>) -> (chunks: Vec<Vec<i16>>)
        requires
            old(self).wf(),
            old(self).buf@.len() + samples@.len() <= usize::MAX,
        ensures
            final(self).wf(),
            final(self).chunk_size == old(self).chunk_size,
            forall|k: int|
                0 <= k < chunks@.len() ==> (#[trigger] chunks@[k])@.len() == old(
                    self,
                ).chunk_size,
            concat_all(chunks@.map_values(|c: Vec<i16>| c@)) + final(self).buf@ == old(
                self,
            ).buf@ + samples@,
            chunks@.len() == (old(self).buf@.len() + samples@.len()) as int / old(
                self,
            ).chunk_size as int,
    {
        let ghost total = old(self).buf@ + samples@;
        let cs = self.chunk_size;
        let mut i: usize = 0;
        while i < samples.len()
            invariant
                i <= samples@.len(),
                self.buf@ == old(self).buf@ + samples@.subrange(0, i as int),
                self.chunk_size == old(self).chunk_size,
                old(self).buf@.len() + samples@.len() <= usize::MAX,
            decreases samples@.len() - i,
        {
            self.buf.push(samples[i]);
            assert(self.buf@ =~= old(self).buf@ + samples@.subrange(0, i + 1));
            i += 1;
        }
        assert(self.buf@ =~= total);
        let mut chunks: Vec<Vec<i16>> = Vec::new();
        while self.buf.len() >= cs
            invariant
                cs == old(self).chunk_size > 0,
                self.chunk_size == cs,
                forall|k: int|
                    0 <= k < chunks@.len() ==> (#[trigger] chunks@[k])@.len() == cs,
                concat_all(chunks@.map_values(|c: Vec<i16>| c@)) + self.buf@ == total,
                chunks@.len() * cs + self.buf@.len() == total.len(),
            decreases self.buf@.len(),
        {
            let ghost before = self.buf@;
            let mut chunk: Vec<i16> = Vec::new();
            let mut j: usize = 0;
            while j < cs
                invariant
                    j <= cs <= before.len(),
                    before == self.buf@,
                    chunk@ == before.subrange(0, j as int),
                decreases cs - j,
            {
                chunk.push(self.buf[j]);
                assert(chunk@ =~= before.subrange(0, j + 1));
                j += 1;
            }
            let mut rest: Vec<i16> = Vec::new();
            let mut j2: usize = cs;
            while j2 < self.buf.len()
                invariant
                    cs <= j2 <= before.len(),
                    before == self.buf@,
                    rest@ == before.subrange(cs as int, j2 as int),
                decreases before.len() - j2,
            {
                rest.push(self.buf[j2]);
                assert(rest@ =~= before.subrange(cs as int, j2 + 1));
                j2 += 1;
            }
            self.buf = rest;
            let ghost chunks_before = chunks@.map_values(|c: Vec<i16>| c@);
            chunks.push(chunk);
            proof {
                let mapped = chunks@.map_values(|c: Vec<i16>| c@);
                assert(mapped.drop_last() =~= chunks_before);
                assert(mapped.last() == before.subrange(0, cs as int));
                assert(concat_all(mapped) == concat_all(chunks_before) + before.subrange(
                    0,
                    cs as int,
                ));
                assert(before.subrange(0, cs as int) + before.subrange(
                    cs as int,
                    before.len() as int,
                ) =~= before);
                assert(concat_all(mapped) + self.buf@ =~= total);
                assert((chunks_before.len() + 1) * cs == chunks_before.len() * cs + cs)
                    by (nonlinear_arith);
            }
        }
        proof {
            assert(chunks@.len() == total.len() as int / cs as int) by (nonlinear_arith)
                requires
                    cs > 0,
                    chunks@.len() * cs + self.buf@.len() == total.len(),
                    0 <= self.buf@.len() < cs,
                    chunks@.len() >= 0,
            ;
        }
        chunks
    }

    /// Hand back whatever is buffered, leaving the accumulator empty. The
    /// remainder is shorter than a full chunk; an empty buffer yields
    /// nothing.
    pub fn flush(&mut self) -> (rest: Option<Vec<i16>>)
        requires
            old(self).wf(),
        ensures
            final(self).wf(),
            final(self).chunk_size == old(self).chunk_size,
            final(self).buf@.len() == 0,
            old(self).buf@.len() == 0 ==> rest is None,
            old(self).buf@.len() > 0 ==> (rest matches Some(v) && v@ == old(self).buf@
                && v@.len() < old(self).chunk_size),
    {
        if self.buf.len() == 0 {
            None
        } else {
            let mut drained: Vec<i16> = Vec::new();
            std::mem::swap(&mut drained, &mut self.buf);
            Some(drained)
        }
    }
}

/// The capture-side conversion pipeline: device-format samples in, canonical
/// mono chunks at [`TARGET_RATE`] out. `finish` drains the remainder exactly
/// once, at stop.
pub struct AudioCapturer {
    /// The device's native sample rate.
    pub sample_rate: u32,
    /// The device's channel count.
    pub channels: u16,
    /// Accumulation buffer for converted samples.
    pub acc: ChunkAccumulator,
    /// Set once the final flush has been taken; no more emission after it.
    pub stopped: bool,
}

impl AudioCapturer {
    pub open spec fn wf(self) -> bool {
        self.sample_rate > 0 && self.channels >= 1 && self.acc.wf()
    }

    /// A capturer for a device with the given native format.
    pub fn new(sample_rate: u32, channels: u16, chunk_size: usize) -> (r: AudioCapturer)
        requires
            sample_rate > 0,
            channels >= 1,
            chunk_size > 0,
        ensures
            r.wf(),
            !r.stopped,
            r.sample_rate == sample_rate,
            r.channels == channels,
            r.acc.chunk_size == chunk_size,
            r.acc.buf@.len() == 0,
    {
        AudioCapturer {
            sample_rate,
            channels,
            acc: ChunkAccumulator::new(chunk_size),
            stopped: false,
        }
    }

    /// One hardware callback delivery: convert the interleaved buffer and
    /// emit every chunk it completes. During active capture every emitted
    /// chunk holds exactly `chunk_size` samples.
    pub fn ingest(&mut self, data: &Vec<i16>) -> (chunks: Vec<Vec<i16>>)
        requires
            old(self).wf(),
            !old(self).stopped,
            old(self).acc.buf@.len() + spec_convert(
                data@,
                old(self).sample_rate as nat,
                old(self).channels as nat,
            ).len() <= usize::MAX,
            linear_out_len(
                spec_downmix(data@, old(self).channels as nat).len(),
                old(self).sample_rate as nat,
                TARGET_RATE as nat,
            ) <= usize::MAX,
        ensures
            final(self).wf(),
            !final(self).stopped,
            final(self).sample_rate == old(self).sample_rate,
            final(self).channels == old(self).channels,
            final(self).acc.chunk_size == old(self).acc.chunk_size,
            forall|k: int|
                0 <= k < chunks@.len() ==> (#[trigger] chunks@[k])@.len() == old(
                    self,
                ).acc.chunk_size,
            concat_all(chunks@.map_values(|c: Vec<i16>| c@)) + final(self).acc.buf@ == old(
                self,
            ).acc.buf@ + spec_convert(
                data@,
                old(self).sample_rate as nat,
                old(self).channels as nat,
            ),
    {
        let converted = convert_i16_to_16k_mono(data, self.sample_rate, self.channels);
        self.acc.push(&converted)
    }

    /// Drain the remainder at stop: at most one chunk, strictly shorter than
    /// a full one, and only ever once.
    pub fn finish(&mut self) -> (rest: Option<Vec<i16>>)
        requires
            old(self).wf(),
            !old(self).stopped,
        ensures
            final(self).wf(),
            final(self).stopped,
            final(self).sample_rate == old(self).sample_rate,
            final(self).channels == old(self).channels,
            final(self).acc.chunk_size == old(self).acc.chunk_size,
            final(self).acc.buf@.len() == 0,
            old(self).acc.buf@.len() == 0 ==> rest is None,
            old(self).acc.buf@.len() > 0 ==> (rest matches Some(v) && v@ == old(
                self,
            ).acc.buf@ && v@.len() < old(self).acc.chunk_size),
    {
        self.stopped = true;
        self.acc.flush()
    }
}

/// Convert one interleaved device buffer to mono samples at [`TARGET_RATE`].
pub fn convert_i16_to_16k_mono(data: &Vec<i16>, sample_rate: u32, channels: u16) -> (r: Vec<
    i16,
>)
    requires
        sample_rate > 0,
        channels >= 1,
        linear_out_len(
            spec_downmix(data@, channels as nat).len(),
            sample_rate as nat,
            TARGET_RATE as nat,
        ) <= usize::MAX,
    ensures
        r@ == spec_convert(data@, sample_rate as nat, channels as nat),
{
    let mono = downmix_to_mono(data, channels);
    resample(&mono, sample_rate, TARGET_RATE)
}


/// A buffer of whole frames downmixes to exactly one mono sample per
/// frame, each the truncated integer average of its frame.
pub proof fn lemma_downmix_frame_count(s: Seq<i16>, channels: nat)
    requires
        channels > 0,
        s.len() % channels == 0,
    ensures
        spec_downmix(s, channels).len() == s.len() / channels,
        forall|i: int|
            0 <= i < spec_downmix(s, channels).len() ==> spec_downmix(s, channels)[i]
                == downmix_at(s, channels as int, i),
{
}

} // verus!
