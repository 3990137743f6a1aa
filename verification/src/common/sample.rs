//! Samples: recorded audio with the rate it was recorded at.

use vstd::prelude::*;
use crate::fixed::{duration_of, min_int, sample_index, samples_in, secs_of};

verus! {

/// A mono recording and the rate at which it plays unshifted.
pub struct Sample {
    pub audio: Vec<i32>,
    pub baserate: u32,
}

/// A place for a sample that may be empty.
pub type SampleSlot = Option<Sample>;

impl Sample {
    /// The time that the sample lasts at its base rate.
    pub open spec fn duration(self) -> int {
        secs_of(self.audio@.len() as int, self.baserate as int)
    }

    /// A sample of the values of `buf`.
    pub fn from_slice(baserate: u32, buf: &[i32]) -> (r: Self)
        ensures
            r.baserate == baserate,
            r.audio@ == buf@,
    {
        let mut audio: Vec<i32> = Vec::new();
        let mut i: usize = 0;
        while i < buf.len()
            invariant
                i <= buf@.len(),
                audio@ == buf@.subrange(0, i as int),
            decreases buf@.len() - i,
        {
            audio.push(buf[i]);
            i = i + 1;
            assert(audio@ =~= buf@.subrange(0, i as int));
        }
        assert(audio@ =~= buf@);
        Sample { audio, baserate }
    }

    /// A silent sample of `len` values.
    pub fn zeros_samples(baserate: u32, len: usize) -> (r: Self)
        ensures
            r.baserate == baserate,
            r.audio@ == Seq::new(len as nat, |i: int| 0i32),
    {
        let mut audio: Vec<i32> = Vec::new();
        let mut i: usize = 0;
        while i < len
            invariant
                i <= len,
                audio@ == Seq::new(i as nat, |i: int| 0i32),
            decreases len - i,
        {
            audio.push(0);
            i = i + 1;
            assert(audio@ =~= Seq::new(i as nat, |i: int| 0i32));
        }
        Sample { audio, baserate }
    }

    /// A silent sample that lasts `len`: it holds the whole samples that fit
    /// before that time.
    pub fn zeros_duration(baserate: u32, len: i64) -> (r: Self)
        ensures
            r.baserate == baserate,
            r.audio@ == Seq::new(
                min_int(samples_in(len as int, baserate as int), usize::MAX as int) as nat,
                |i: int| 0i32,
            ),
    {
        Self::zeros_samples(baserate, sample_index(len, baserate, usize::MAX))
    }

    /// The time that the sample lasts at its base rate.
    pub fn length(&self) -> (r: i64)
        ensures
            r == self.duration(),
    {
        duration_of(self.audio.len(), self.baserate)
    }

    /// The values of the sample.
    pub fn to_slice(&self) -> (r: &[i32])
        ensures
            r@ == self.audio@,
    {
        self.audio.as_slice()
    }

    /// The values of the sample, to be changed in place.
    pub fn mut_slice(&mut self) -> (r: &mut [i32])
        ensures
            r@ == old(self).audio@,
            final(self).audio@ == final(r)@,
            final(self).baserate == old(self).baserate,
    {
        self.audio.as_mut_slice()
    }

    /// The sample, or nothing where it holds no audio.
    pub fn as_slot(self) -> (r: Option<Self>)
        ensures
            self.audio@.len() == 0 <==> r is None,
            r is Some ==> r == Some(self),
    {
        if self.audio.is_empty() {
            None
        } else {
            Some(self)
        }
    }

    /// The index of the value that plays at the time `offset`.
    pub fn index_at(&self, offset: i64) -> (r: usize)
        ensures
            r == min_int(samples_in(offset as int, self.baserate as int), usize::MAX as int),
    {
        sample_index(offset, self.baserate, usize::MAX)
    }
}

} // verus!
