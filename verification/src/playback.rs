//! The playback engine's buffer policy: the real-time output callback
//! first drains samples left over from the previous callback, then pulls
//! chunks from the channel, stashing any overflow into a bounded
//! leftover, and fills the rest with silence. This module holds the
//! verified buffer arithmetic of that policy; the device callback itself
//! stays outside.

use vstd::prelude::*;
use vstd::slice::{slice_subrange, slice_to_vec};

verus! {

/// The smaller of two lengths.
pub open spec fn min_len(a: int, b: int) -> int {
    if a < b {
        a
    } else {
        b
    }
}

/// The bounded leftover between output callbacks.
pub struct PlaybackBuffer {
    leftover: Vec<i16>,
    cap: usize,
}

impl PlaybackBuffer {
    /// The samples waiting from the previous callback.
    pub closed spec fn pending(&self) -> Seq<i16> {
        self.leftover@
    }

    /// The bound on the leftover, one second of device audio.
    pub closed spec fn cap_spec(&self) -> int {
        self.cap as int
    }

    /// The leftover never outgrows its bound.
    pub closed spec fn wf(&self) -> bool {
        self.leftover@.len() <= self.cap
    }

    /// An empty buffer bounded at `cap` samples.
    pub fn new(cap: usize) -> (r: PlaybackBuffer)
        ensures
            r.wf(),
            r.pending().len() == 0,
            r.cap_spec() == cap,
    {
        PlaybackBuffer { leftover: Vec::new(), cap }
    }

    /// Takes up to `out_len` pending samples to copy into the output
    /// buffer first; they leave the leftover.
    pub fn drain(&mut self, out_len: usize) -> (r: Vec<i16>)
        requires
            old(self).wf(),
        ensures
            final(self).wf(),
            final(self).cap_spec() == old(self).cap_spec(),
            r@ == old(self).pending().take(min_len(out_len as int, old(self).pending().len() as int)),
            final(self).pending() == old(self).pending().skip(
                min_len(out_len as int, old(self).pending().len() as int),
            ),
    {
        let n = if out_len < self.leftover.len() {
            out_len
        } else {
            self.leftover.len()
        };
        let r = slice_to_vec(slice_subrange(self.leftover.as_slice(), 0, n));
        let rest = slice_to_vec(
            slice_subrange(self.leftover.as_slice(), n, self.leftover.len()),
        );
        self.leftover = rest;
        proof {
            assert(r@ =~= old(self).pending().take(
                min_len(out_len as int, old(self).pending().len() as int),
            ));
            assert(self.leftover@ =~= old(self).pending().skip(
                min_len(out_len as int, old(self).pending().len() as int),
            ));
        }
        r
    }

    /// Accepts one chunk pulled from the channel when `space` output
    /// samples still wait to be filled: the part that fits is returned
    /// to play now, and of the overflow as much as the bound allows is
    /// stashed for the next callback; the rest is dropped.
    pub fn push_chunk(&mut self, chunk: &Vec<i16>, space: usize) -> (r: Vec<i16>)
        requires
            old(self).wf(),
        ensures
            final(self).wf(),
            final(self).cap_spec() == old(self).cap_spec(),
            r@ == chunk@.take(min_len(space as int, chunk@.len() as int)),
            final(self).pending() == old(self).pending() + chunk@.subrange(
                min_len(space as int, chunk@.len() as int),
                min_len(space as int, chunk@.len() as int) + min_len(
                    old(self).cap_spec() - old(self).pending().len(),
                    chunk@.len() - min_len(space as int, chunk@.len() as int),
                ),
            ),
    {
        let n = if space < chunk.len() {
            space
        } else {
            chunk.len()
        };
        let r = slice_to_vec(slice_subrange(chunk.as_slice(), 0, n));
        let room = self.cap - self.leftover.len();
        let extra = if room < chunk.len() - n {
            room
        } else {
            chunk.len() - n
        };
        let mut stash = slice_to_vec(slice_subrange(chunk.as_slice(), n, n + extra));
        self.leftover.append(&mut stash);
        proof {
            let m = min_len(space as int, chunk@.len() as int);
            let e = min_len(
                old(self).cap_spec() - old(self).pending().len(),
                chunk@.len() - m,
            );
            assert(r@ =~= chunk@.take(m));
            assert(self.leftover@ =~= old(self).pending() + chunk@.subrange(m, m + e));
        }
        r
    }

    /// Drops everything pending, as the clear flag on an interrupt asks.
    pub fn clear(&mut self)
        requires
            old(self).wf(),
        ensures
            final(self).wf(),
            final(self).cap_spec() == old(self).cap_spec(),
            final(self).pending().len() == 0,
    {
        self.leftover.clear();
    }

    /// How many samples are pending.
    pub fn pending_len(&self) -> (n: usize)
        ensures
            n == self.pending().len(),
    {
        self.leftover.len()
    }
}

} // verus!
