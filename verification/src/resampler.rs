//! The streaming rate converter's bookkeeping: carry-over of sub-chunk
//! samples between calls, whole-chunk dispatch to a conversion kernel,
//! and the explicit end-of-stream flush that pads, converts and
//! truncates the final partial chunk.
//!
//! The kernel itself — the band-limited interpolation filter — works on
//! floating-point signal data and is supplied by the caller behind the
//! [`ResampleKernel`] trait; nothing is assumed about its output.

use vstd::prelude::*;
use vstd::slice::{slice_subrange, slice_to_vec};

verus! {

/// Samples per conversion frame: the kernel always receives exactly this
/// many samples at once.
pub const RESAMPLE_CHUNK: usize = 1024;

/// The conversion kernel behind the streaming resampler: a stateful
/// filter fed fixed-size mono frames, and the channel downmix for
/// interleaved input. Implementations wrap a signal-processing library;
/// no contract constrains their output.
pub trait ResampleKernel {
    /// Converts one frame of exactly [`RESAMPLE_CHUNK`] mono samples.
    fn process_chunk(&mut self, chunk: &Vec<i16>) -> Vec<i16>;

    /// Folds interleaved frames of `channels` samples down to mono.
    fn downmix(&mut self, frames: &Vec<i16>, channels: u16) -> Vec<i16>;
}

/// The number of whole conversion frames in `len` samples, as an offset.
pub open spec fn full_frames_end(len: int) -> int {
    1024 * (len / 1024)
}

/// A streaming rate converter with carry-over across calls.
///
/// Between calls it holds the samples that did not fill a whole
/// conversion frame; each call prepends them to the new input, feeds
/// whole frames to the kernel, and keeps the remainder. A call with
/// empty input flushes: the remainder is zero-padded to a frame,
/// converted, and the output truncated to the remainder's share.
pub struct StreamingResampler<K> {
    source_rate: u32,
    target_rate: u32,
    channels: u16,
    leftover: Vec<i16>,
    kernel: K,
}

impl<K: ResampleKernel> StreamingResampler<K> {
    /// Well-formedness: sample rates are positive.
    pub closed spec fn wf(&self) -> bool {
        self.source_rate > 0 && self.target_rate > 0
    }

    /// Whether conversion is a no-op: same rate, already mono.
    pub closed spec fn passthrough(&self) -> bool {
        self.source_rate == self.target_rate && self.channels == 1
    }

    /// The mono samples carried over from earlier calls.
    pub closed spec fn carry(&self) -> Seq<i16> {
        self.leftover@
    }

    /// Whether the input is taken mono, without a downmix.
    pub closed spec fn mono_input(&self) -> bool {
        self.channels == 1
    }

    /// Processes one batch of interleaved input samples, or flushes the
    /// carry when the input is empty.
    ///
    /// A passthrough converter returns the input unchanged and carries
    /// nothing. Otherwise whole frames are converted and the carry is
    /// updated: after a flush it is empty, after mono input it is
    /// exactly the tail of carry-plus-input past the last whole frame,
    /// and it always stays shorter than one frame.
    pub fn process(&mut self, input: &Vec<i16>) -> (out: Vec<i16>)
        requires
            old(self).wf(),
        ensures
            final(self).wf(),
            old(self).passthrough() == final(self).passthrough(),
            old(self).mono_input() == final(self).mono_input(),
            old(self).passthrough() ==> out@ == input@ && final(self).carry() == old(self).carry(),
            !old(self).passthrough() ==> final(self).carry().len() < 1024,
            !old(self).passthrough() && input@.len() == 0 ==> final(self).carry().len() == 0,
            !old(self).passthrough() && old(self).mono_input() && input@.len() > 0
                ==> final(self).carry() == (old(self).carry() + input@).skip(
                full_frames_end(old(self).carry().len() + input@.len() as int),
            ),
    {
        if self.source_rate == self.target_rate && self.channels == 1 {
            let out = slice_to_vec(input.as_slice());
            return out;
        }
        let is_flush = input.len() == 0;
        let mono: Vec<i16> = if self.channels == 1 {
            slice_to_vec(input.as_slice())
        } else {
            self.kernel.downmix(input, self.channels)
        };
        let mut combined = take_all(&mut self.leftover);
        let ghost combined0 = combined@ + mono@;
        let mut mono = mono;
        combined.append(&mut mono);
        proof {
            assert(combined@ =~= combined0);
        }
        if combined.len() == 0 {
            return Vec::new();
        }
        let mut out: Vec<i16> = Vec::new();
        let mut offset: usize = 0;
        let total = combined.len();
        while total - offset >= RESAMPLE_CHUNK
            invariant
                offset <= total,
                total == combined@.len(),
                offset % 1024 == 0,
                self.source_rate == old(self).source_rate,
                self.target_rate == old(self).target_rate,
                self.channels == old(self).channels,
                self.leftover@.len() == 0,
            decreases total - offset,
        {
            let chunk = slice_to_vec(slice_subrange(combined.as_slice(), offset, offset + 1024));
            let mut part = self.kernel.process_chunk(&chunk);
            out.append(&mut part);
            offset = offset + 1024;
        }
        proof {
            assert(offset == full_frames_end(total as int));
        }
        let remainder = slice_to_vec(slice_subrange(combined.as_slice(), offset, total));
        proof {
            assert(remainder@ =~= combined@.skip(offset as int));
        }
        if is_flush {
            if remainder.len() > 0 {
                let rem_len = remainder.len();
                let mut padded = remainder;
                let mut fill: usize = rem_len;
                while fill < RESAMPLE_CHUNK
                    invariant
                        fill <= 1024,
                        padded@.len() == fill,
                    decreases 1024 - fill,
                {
                    padded.push(0);
                    fill = fill + 1;
                }
                let part = self.kernel.process_chunk(&padded);
                let want = flush_target_len(rem_len, self.target_rate, self.source_rate);
                let keep: usize = if want < part.len() as u64 {
                    want as usize
                } else {
                    part.len()
                };
                let mut tail = slice_to_vec(slice_subrange(part.as_slice(), 0, keep));
                out.append(&mut tail);
            }
            // the carry stays empty after a flush
        } else {
            self.leftover = remainder;
        }
        out
    }
}

/// Moves the whole contents out of `v`, leaving it empty.
fn take_all(v: &mut Vec<i16>) -> (r: Vec<i16>)
    ensures
        r@ == old(v)@,
        final(v)@.len() == 0,
{
    let r = slice_to_vec(v.as_slice());
    v.clear();
    r
}

/// How many output samples the flushed remainder is owed: its length
/// scaled by the rate ratio, rounded up.
pub fn flush_target_len(rem: usize, target_rate: u32, source_rate: u32) -> (r: u64)
    requires
        rem <= 1024,
        source_rate > 0,
    ensures
        r == (rem * target_rate + source_rate - 1) as int / (source_rate as int),
{
    proof {
        assert((rem as u64) * (target_rate as u64) <= 1024 * 0xffff_ffffu64) by (nonlinear_arith)
            requires
                rem <= 1024,
                target_rate <= 0xffff_ffffu64,
        ;
    }
    let num: u64 = (rem as u64) * (target_rate as u64) + (source_rate as u64) - 1;
    let den: u64 = source_rate as u64;
    num / den
}

/// Builds a streaming converter from `source_rate` to `target_rate` for
/// interleaved input of `channels` channels, over the given kernel.
/// With equal rates and mono input it passes samples through untouched.
pub fn create_resampler<K: ResampleKernel>(
    source_rate: u32,
    target_rate: u32,
    channels: u16,
    kernel: K,
) -> (r: StreamingResampler<K>)
    requires
        source_rate > 0,
        target_rate > 0,
    ensures
        r.wf(),
        r.passthrough() == (source_rate == target_rate && channels == 1),
        r.mono_input() == (channels == 1),
        r.carry().len() == 0,
{
    StreamingResampler { source_rate, target_rate, channels, leftover: Vec::new(), kernel }
}

} // verus!
