//! Tracks and the project that owns everything.

use vstd::prelude::*;
use crate::common::instrument::Instrument;
use crate::common::pattern::{Pattern, PatternRef};
use crate::common::sample::Sample;

verus! {

/// The name of a track, and the tempo and the volume it starts with.
pub struct TrackMetadata {
    pub name: String,
    pub init_tempo: i32,
    pub init_volume: i32,
}

/// A sequence of patterns, each at its time.
pub struct Track {
    pub pattern_refs: Vec<PatternRef>,
    pub metadata: TrackMetadata,
}

/// Everything that a renderer reads. Patterns, samples and instruments refer
/// to one another by their index here.
pub struct Project {
    pub patterns: Vec<Pattern>,
    pub samples: Vec<Sample>,
    pub instruments: Vec<Instrument>,
    pub tracks: Vec<Track>,
}

impl Track {
    /// Every reference names one of `patterns` patterns.
    pub open spec fn wf(self, patterns: int) -> bool {
        forall|i: int|
            0 <= i < self.pattern_refs@.len() ==> (#[trigger] self.pattern_refs@[i]).pattern
                < patterns
    }

    /// Whether every reference names one of `patterns` patterns.
    pub fn validate(&self, patterns: usize) -> (r: bool)
        ensures
            r == self.wf(patterns as int),
    {
        let mut i: usize = 0;
        while i < self.pattern_refs.len()
            invariant
                i <= self.pattern_refs@.len(),
                forall|k: int| 0 <= k < i ==> (#[trigger] self.pattern_refs@[k]).pattern < patterns,
            decreases self.pattern_refs@.len() - i,
        {
            if self.pattern_refs[i].pattern >= patterns {
                return false;
            }
            i = i + 1;
        }
        true
    }
}

impl Project {
    /// Every index in the project names something that the project holds,
    /// every pattern grid is full and every loop section is well formed.
    pub open spec fn wf(self) -> bool {
        &&& forall|i: int|
            0 <= i < self.instruments@.len() ==> (#[trigger] self.instruments@[i]).wf(
                self.samples@.len() as int,
            )
        &&& forall|i: int|
            0 <= i < self.patterns@.len() ==> (#[trigger] self.patterns@[i]).wf(
                self.instruments@.len() as int,
            )
        &&& forall|i: int|
            0 <= i < self.tracks@.len() ==> (#[trigger] self.tracks@[i]).wf(
                self.patterns@.len() as int,
            )
    }

    /// An empty project.
    pub fn new() -> (r: Self)
        ensures
            r.patterns@.len() == 0,
            r.samples@.len() == 0,
            r.instruments@.len() == 0,
            r.tracks@.len() == 0,
            r.wf(),
    {
        Project {
            patterns: Vec::new(),
            samples: Vec::new(),
            instruments: Vec::new(),
            tracks: Vec::new(),
        }
    }

    /// Whether the project is well formed.
    pub fn validate(&self) -> (r: bool)
        ensures
            r == self.wf(),
    {
        let mut i: usize = 0;
        while i < self.instruments.len()
            invariant
                i <= self.instruments@.len(),
                forall|k: int|
                    0 <= k < i ==> (#[trigger] self.instruments@[k]).wf(self.samples@.len() as int),
            decreases self.instruments@.len() - i,
        {
            if !self.instruments[i].validate(self.samples.len()) {
                return false;
            }
            i = i + 1;
        }
        let mut j: usize = 0;
        while j < self.patterns.len()
            invariant
                j <= self.patterns@.len(),
                forall|k: int|
                    0 <= k < self.instruments@.len() ==> (#[trigger] self.instruments@[k]).wf(
                        self.samples@.len() as int,
                    ),
                forall|k: int|
                    0 <= k < j ==> (#[trigger] self.patterns@[k]).wf(
                        self.instruments@.len() as int,
                    ),
            decreases self.patterns@.len() - j,
        {
            if !self.patterns[j].validate(self.instruments.len()) {
                return false;
            }
            j = j + 1;
        }
        let mut t: usize = 0;
        while t < self.tracks.len()
            invariant
                t <= self.tracks@.len(),
                forall|k: int|
                    0 <= k < self.instruments@.len() ==> (#[trigger] self.instruments@[k]).wf(
                        self.samples@.len() as int,
                    ),
                forall|k: int|
                    0 <= k < self.patterns@.len() ==> (#[trigger] self.patterns@[k]).wf(
                        self.instruments@.len() as int,
                    ),
                forall|k: int|
                    0 <= k < t ==> (#[trigger] self.tracks@[k]).wf(self.patterns@.len() as int),
            decreases self.tracks@.len() - t,
        {
            if !self.tracks[t].validate(self.patterns.len()) {
                return false;
            }
            t = t + 1;
        }
        true
    }
}

} // verus!
