//! Instruments: a sample and the way it is played.

use vstd::prelude::*;
use crate::common::position::{LoopDef, LoopSection};
use crate::curves::{cos_of_turns, cos_turns, isqrt, sqrt_floor};
use crate::fixed::{min_int, ONE};

verus! {

/// Plain playback: where it starts and the loops it goes through, one after
/// the other.
pub struct BasicMode {
    pub start: i64,
    pub loops: Vec<LoopDef>,
}

/// The envelope of a granule over its life.
#[derive(Clone, Copy, Debug)]
pub enum SmoothingMode {
    Off,
    Triangle,
    Linear(i32),
    SquareRoot(i32),
    Cosine(i32),
}

/// Granular playback: a section that is started again and again.
#[derive(Clone, Copy, Debug)]
pub struct GranulatingMode {
    pub segment: LoopSection,
    pub interval: i64,
    pub gain: i32,
    pub smoothing: SmoothingMode,
}

/// A way of playing a sample.
pub trait Sampler {
}

impl Sampler for BasicMode {
}

impl Sampler for GranulatingMode {
}

/// The way an instrument plays its sample.
pub enum InstrumentMode {
    Basic(BasicMode),
    Granulating(GranulatingMode),
}

/// A sample with a volume, a panning, the pitch at which it plays unshifted,
/// and a mode.
pub struct Instrument {
    pub sample: usize,
    pub volume: i32,
    pub pan: i32,
    pub base_pitch: i32,
    pub mode: InstrumentMode,
}

impl BasicMode {
    /// Every loop has a well-formed section.
    pub open spec fn wf(self) -> bool {
        forall|i: int| 0 <= i < self.loops@.len() ==> (#[trigger] self.loops@[i]).wf()
    }

    /// Whether every loop has a well-formed section.
    pub fn validate(&self) -> (r: bool)
        ensures
            r == self.wf(),
    {
        let mut i: usize = 0;
        while i < self.loops.len()
            invariant
                i <= self.loops@.len(),
                forall|k: int| 0 <= k < i ==> (#[trigger] self.loops@[k]).wf(),
            decreases self.loops@.len() - i,
        {
            let good: bool = match self.loops[i] {
                LoopDef::Off => true,
                LoopDef::Forward(section) => section.from < section.to,
                LoopDef::PingPong(section) => section.from < section.to,
            };
            if !good {
                return false;
            }
            i = i + 1;
        }
        true
    }
}

impl SmoothingMode {
    /// The gain of a granule at `position` of its life, which runs from zero
    /// to one: one without smoothing; else a rise from the nearer end of the
    /// life, over the width that the mode names, up to one at most. A width
    /// that is not positive gives one.
    pub open spec fn factor_spec(self, position: int) -> int {
        let dist = min_int(position, ONE - position);
        match self {
            SmoothingMode::Off => ONE as int,
            SmoothingMode::Triangle => 2 * dist,
            SmoothingMode::Linear(width) => if width <= 0 {
                ONE as int
            } else {
                min_int(ONE as int, (dist * ONE) / (width as int))
            },
            SmoothingMode::SquareRoot(width) => if width <= 0 {
                ONE as int
            } else {
                min_int(ONE as int, sqrt_floor(((dist * ONE) / (width as int)) * ONE))
            },
            SmoothingMode::Cosine(width) => if width <= 0 {
                ONE as int
            } else {
                cos_turns(((ONE - dist) * ONE) / (4 * width))
            },
        }
    }

    /// The gain of a granule at `position` of its life.
    pub fn factor_at(&self, position: i32) -> (r: i32)
        requires
            0 <= position <= ONE,
        ensures
            r == self.factor_spec(position as int),
            -ONE <= r <= ONE,
    {
        let dist: u64 = if position <= ONE - position {
            position as u64
        } else {
            (ONE - position) as u64
        };
        match *self {
            SmoothingMode::Off => ONE,
            SmoothingMode::Triangle => (2 * dist) as i32,
            SmoothingMode::Linear(width) => {
                if width <= 0 {
                    ONE
                } else {
                    let ratio: u64 = (dist * 65_536) / (width as u64);
                    if ratio >= 65_536 {
                        ONE
                    } else {
                        ratio as i32
                    }
                }
            },
            SmoothingMode::SquareRoot(width) => {
                if width <= 0 {
                    ONE
                } else {
                    let ratio: u64 = (dist * 65_536) / (width as u64);
                    let root: u32 = isqrt(ratio * 65_536);
                    if root >= 65_536 {
                        ONE
                    } else {
                        root as i32
                    }
                }
            },
            SmoothingMode::Cosine(width) => {
                if width <= 0 {
                    ONE
                } else {
                    cos_of_turns(((65_536 - dist) * 65_536) / (4 * (width as u64)))
                }
            },
        }
    }
}

impl InstrumentMode {
    /// The loop sections and the granulated segment are well formed.
    pub open spec fn wf(self) -> bool {
        match self {
            InstrumentMode::Basic(def) => def.wf(),
            InstrumentMode::Granulating(def) => def.segment.wf(),
        }
    }
}

impl Instrument {
    /// The sample exists among `samples` samples and the mode is well formed.
    pub open spec fn wf(self, samples: int) -> bool {
        self.sample < samples && self.mode.wf()
    }

    /// Whether the sample exists among `samples` samples and the mode is
    /// well formed.
    pub fn validate(&self, samples: usize) -> (r: bool)
        ensures
            r == self.wf(samples as int),
    {
        if self.sample >= samples {
            return false;
        }
        match &self.mode {
            InstrumentMode::Basic(def) => def.validate(),
            InstrumentMode::Granulating(def) => def.segment.from < def.segment.to,
        }
    }
}

} // verus!
