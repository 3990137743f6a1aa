//! Output buffers and the windows of them that renderers write into.

use vstd::prelude::*;
use crate::fixed::{duration_of, min_int, sample_index, samples_in, secs_of};
use crate::resample::Resampler;

verus! {

/// One channel of output: samples at a rate, and the way sources are
/// resampled into it.
pub struct AudioBuffer {
    pub out: Vec<i32>,
    pub rate: u32,
    pub resampler: Resampler,
}

/// A window of a buffer: the samples `start..end`, played at `rate`.
///
/// The rate of a window is that of its buffer until a voice scales it by its
/// pitch.
#[derive(Clone, Copy, Debug)]
pub struct AudioBufferSlice {
    pub start: usize,
    pub end: usize,
    pub rate: u32,
    pub resampler: Resampler,
}

/// The samples of the two sides of a stereo output.
pub struct Stereo {
    pub left: Seq<i32>,
    pub right: Seq<i32>,
}

impl AudioBufferSlice {
    /// The window is not inverted.
    pub open spec fn wf(self) -> bool {
        self.start <= self.end
    }

    /// The window lies within a buffer of `len` samples.
    pub open spec fn fits(self, len: int) -> bool {
        self.start <= self.end <= len
    }

    /// The window of the samples between the times `from` and `to`, counted
    /// from the start of this window at its rate. It never leaves this
    /// window and is empty where `to` is not after `from`.
    pub open spec fn sub_spec(self, from: int, to: int) -> AudioBufferSlice {
        let n = self.end - self.start;
        let lo = self.start + min_int(samples_in(from, self.rate as int), n);
        let hi = self.start + min_int(samples_in(to, self.rate as int), n);
        AudioBufferSlice {
            start: lo as usize,
            end: (if hi < lo {
                lo
            } else {
                hi
            }) as usize,
            rate: self.rate,
            resampler: self.resampler,
        }
    }

    /// The time that the window covers at its rate.
    pub fn len_secs(&self) -> (r: i64)
        requires
            self.wf(),
        ensures
            r == secs_of(self.end - self.start, self.rate as int),
            r >= 0,
    {
        duration_of(self.end - self.start, self.rate)
    }

    /// The number of samples in the window.
    pub fn len_samples(&self) -> (r: usize)
        requires
            self.wf(),
        ensures
            r == self.end - self.start,
    {
        self.end - self.start
    }

    /// The part of this window between two times.
    pub fn sub(&self, from: i64, to: i64) -> (r: AudioBufferSlice)
        requires
            self.wf(),
        ensures
            r == self.sub_spec(from as int, to as int),
            r.wf(),
            self.start <= r.start,
            r.end <= self.end,
    {
        let n: usize = self.end - self.start;
        let lo: usize = self.start + sample_index(from, self.rate, n);
        let hi: usize = self.start + sample_index(to, self.rate, n);
        AudioBufferSlice {
            start: lo,
            end: if hi < lo {
                lo
            } else {
                hi
            },
            rate: self.rate,
            resampler: self.resampler,
        }
    }

    /// This window, played at another rate.
    pub fn at_rate(&self, rate: u32) -> (r: AudioBufferSlice)
        ensures
            r == (AudioBufferSlice { rate, ..*self }),
    {
        AudioBufferSlice { start: self.start, end: self.end, rate, resampler: self.resampler }
    }
}

impl AudioBuffer {
    /// The window that covers the whole buffer.
    pub open spec fn whole(self) -> AudioBufferSlice {
        AudioBufferSlice {
            start: 0,
            end: self.out@.len() as usize,
            rate: self.rate,
            resampler: self.resampler,
        }
    }

    /// The time that the buffer covers.
    pub fn len(&self) -> (r: i64)
        ensures
            r == secs_of(self.out@.len() as int, self.rate as int),
            r >= 0,
    {
        duration_of(self.out.len(), self.rate)
    }

    /// The window that covers the whole buffer.
    pub fn ref_buf(&self) -> (r: AudioBufferSlice)
        ensures
            r == self.whole(),
            r.fits(self.out@.len() as int),
    {
        AudioBufferSlice {
            start: 0,
            end: self.out.len(),
            rate: self.rate,
            resampler: self.resampler,
        }
    }

    /// The window of the samples between the times `start` and `end`.
    pub fn slice(&self, start: i64, end: i64) -> (r: AudioBufferSlice)
        ensures
            r == self.whole().sub_spec(start as int, end as int),
            r.fits(self.out@.len() as int),
    {
        self.ref_buf().sub(start, end)
    }

    /// Sets every sample to zero.
    pub fn clear(&mut self)
        ensures
            final(self).out@ == Seq::new(old(self).out@.len(), |i: int| 0i32),
            final(self).rate == old(self).rate,
            final(self).resampler == old(self).resampler,
    {
        let n: usize = self.out.len();
        let mut i: usize = 0;
        while i < n
            invariant
                i <= n,
                n == self.out@.len(),
                n == old(self).out@.len(),
                self.rate == old(self).rate,
                self.resampler == old(self).resampler,
                forall|k: int| 0 <= k < i ==> self.out@[k] == 0,
            decreases n - i,
        {
            self.out.set(i, 0);
            i = i + 1;
        }
        assert(self.out@ =~= Seq::new(old(self).out@.len(), |i: int| 0i32));
    }
}

/// Something that renders stereo audio block by block.
pub trait StereoSource {
    /// The source is in a state to render from.
    spec fn ready(&self) -> bool;

    /// Renders the next block into the two sides, which keep their length.
    fn render(&mut self, left_sink: &mut AudioBuffer, right_sink: &mut AudioBuffer)
        requires
            old(self).ready(),
            old(left_sink).out@.len() == old(right_sink).out@.len(),
        ensures
            final(self).ready(),
            final(left_sink).out@.len() == old(left_sink).out@.len(),
            final(right_sink).out@.len() == old(right_sink).out@.len(),
    ;
}

} // verus!
