//! Patterns: grids of instructions, one row per time step and one column per
//! channel.

use vstd::prelude::*;

verus! {

/// A change of `amount` spread evenly over `length`.
#[derive(Clone, Copy, Debug)]
pub struct Slide {
    pub length: i64,
    pub amount: i32,
}

/// An oscillation: `speed` cycles per second, `depth` high.
#[derive(Clone, Copy, Debug)]
pub struct Vibration {
    pub speed: i32,
    pub depth: i32,
}

/// A modulation of the pitch, the volume or the panning of a voice.
#[derive(Clone, Copy, Debug)]
pub enum Effect {
    Portamento(Slide),
    Vibrato(Vibration),
    Tremolo(Vibration),
    Panbrello(Vibration),
}

/// An effect and the time it lives.
#[derive(Clone, Copy, Debug)]
pub struct EffectInstance {
    pub length: i64,
    pub effect: Effect,
}

/// A note: the instrument it plays on, its pitch, panning and volume, and the
/// effects it starts.
pub struct NoteInstruction {
    pub instrument: usize,
    pub pitch: i32,
    pub pan: i32,
    pub volume: i32,
    pub effects: Vec<EffectInstance>,
}

/// One cell of a pattern.
pub enum Instruction {
    Empty,
    Note(NoteInstruction),
    Cut,
    Stop,
    NextLoop,
    Fade(i64),
    Pause,
}

/// What a command changes for the whole pattern.
#[derive(Clone, Copy, Debug)]
pub enum CommandEffect {
    SetGlobalVolume(i32),
    SetTempo(i32),
    SlideTempo(Slide),
    SlideGlobalVolume(Slide),
}

/// A change for the whole pattern at a time into it. Renderers keep commands
/// and do not act on them.
#[derive(Clone, Copy, Debug)]
pub struct Command {
    pub offset: i64,
    pub effect: CommandEffect,
}

/// A grid of `width` by `height` instructions, row after row, played at
/// `row_speed` rows per second.
pub struct Pattern {
    pub instructions: Vec<Instruction>,
    pub width: u16,
    pub height: u16,
    pub commands: Vec<Command>,
    pub row_speed: i32,
}

/// A pattern and the time in the track at which it starts.
#[derive(Clone, Copy, Debug)]
pub struct PatternRef {
    pub position: i64,
    pub pattern: usize,
}

impl Instruction {
    /// A note names one of `instruments` instruments.
    pub open spec fn wf(self, instruments: int) -> bool {
        match self {
            Instruction::Note(note) => note.instrument < instruments,
            _ => true,
        }
    }
}

impl Pattern {
    /// The grid is full and every note names one of `instruments`
    /// instruments.
    pub open spec fn wf(self, instruments: int) -> bool {
        &&& self.instructions@.len() == self.width * self.height
        &&& forall|i: int|
            0 <= i < self.instructions@.len() ==> (#[trigger] self.instructions@[i]).wf(instruments)
    }

    /// Whether the grid is full and every note names one of `instruments`
    /// instruments.
    pub fn validate(&self, instruments: usize) -> (r: bool)
        ensures
            r == self.wf(instruments as int),
    {
        assert(self.width * self.height <= 0xffff * 0xffff) by (nonlinear_arith)
            requires
                self.width <= 0xffff,
                self.height <= 0xffff,
        ;
        let cells: u64 = (self.width as u64) * (self.height as u64);
        if self.instructions.len() as u64 != cells {
            return false;
        }
        let mut i: usize = 0;
        while i < self.instructions.len()
            invariant
                i <= self.instructions@.len(),
                self.instructions@.len() == self.width * self.height,
                forall|k: int| 0 <= k < i ==> (#[trigger] self.instructions@[k]).wf(instruments as int),
            decreases self.instructions@.len() - i,
        {
            let good: bool = match &self.instructions[i] {
                Instruction::Note(note) => note.instrument < instruments,
                _ => true,
            };
            if !good {
                return false;
            }
            i = i + 1;
        }
        true
    }
}

} // verus!
