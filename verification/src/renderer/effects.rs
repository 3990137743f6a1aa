//! Effects: modulations of the pitch, the volume and the panning of a voice
//! that run on a clock of their own.

use vstd::prelude::*;
use crate::common::pattern::{Effect, EffectInstance, Slide, Vibration};
use crate::curves::{cos_of_turns, cos_turns, lemma_cos_bound};
use crate::fixed::{
    abs_int,
    clamp_i32,
    clamp_i64,
    lemma_product_bound,
    lemma_signed_product_bound,
    max_int,
    min_int,
    sat32,
    sat64,
    scale,
    scale_level,
    trunc_div,
    ONE,
    TICKS_PER_SEC,
};

verus! {

/// What effects act on: the volume, the panning and the pitch of a voice.
#[derive(Clone, Copy, Debug)]
pub struct Tone {
    pub volume: i32,
    pub panning: i32,
    pub pitch: i32,
}

/// A running effect: its definition and the time since it started.
#[derive(Clone, Copy, Debug)]
pub struct EffectState {
    pub def: EffectInstance,
    pub pos: i64,
}

/// The turns that an oscillation of `speed` cycles per second has made at
/// the time `pos`, as a level.
pub open spec fn phase_at(pos: int, speed: int) -> int {
    if pos <= 0 {
        0
    } else {
        (pos * abs_int(speed)) / (TICKS_PER_SEC as int)
    }
}

/// What a vibration adds at the time `pos`: its speed times its depth times
/// the cosine of its phase.
pub open spec fn vibration_delta(v: Vibration, pos: int) -> int {
    scale(sat32(scale(v.speed as int, v.depth as int)), cos_turns(phase_at(pos, v.speed as int)))
}

/// What a slide adds in a frame of `dt` that starts at the time `pos`: the
/// share of its amount that the part of the frame within its length is of
/// that length.
pub open spec fn slide_delta(s: Slide, pos: int, dt: int) -> int {
    if s.length <= 0 {
        0
    } else {
        trunc_div(s.amount * max_int(0, min_int(dt, s.length - pos)), s.length as int)
    }
}

impl EffectState {
    /// The effect has lived its length.
    pub open spec fn expired_spec(self) -> bool {
        self.pos >= self.def.length
    }

    /// The effect after a frame of `delta`.
    pub open spec fn advanced(self, delta: int) -> EffectState {
        EffectState { pos: sat64(self.pos + delta) as i64, ..self }
    }

    /// The tone after the effect has acted on it for a frame of `dt`.
    pub open spec fn applied(self, tone: Tone, dt: int) -> Tone {
        match self.def.effect {
            Effect::Vibrato(v) => Tone {
                pitch: sat32(tone.pitch + vibration_delta(v, self.pos as int)) as i32,
                ..tone
            },
            Effect::Tremolo(v) => Tone {
                volume: sat32(tone.volume + vibration_delta(v, self.pos as int)) as i32,
                ..tone
            },
            Effect::Panbrello(v) => Tone {
                panning: sat32(tone.panning + vibration_delta(v, self.pos as int)) as i32,
                ..tone
            },
            Effect::Portamento(s) => Tone {
                pitch: sat32(tone.pitch + slide_delta(s, self.pos as int, dt)) as i32,
                ..tone
            },
        }
    }

    /// The effect `def` at time zero.
    pub fn new(def: EffectInstance) -> (r: Self)
        ensures
            r == (EffectState { def, pos: 0 }),
    {
        EffectState { def, pos: 0 }
    }

    /// Whether the effect has lived its length.
    pub fn expired(&self) -> (r: bool)
        ensures
            r == self.expired_spec(),
    {
        self.pos >= self.def.length
    }

    /// Moves the clock of the effect on; the result says whether the effect
    /// has expired.
    pub fn advance(&mut self, delta_secs: i64) -> (r: bool)
        ensures
            *final(self) == old(self).advanced(delta_secs as int),
            r == final(self).expired_spec(),
    {
        self.pos = clamp_i64(self.pos as i128 + delta_secs as i128);
        self.expired()
    }

    /// Acts on `tone` for a frame of `dt`.
    pub fn apply(&self, tone: Tone, dt: i64) -> (r: Tone)
        ensures
            r == self.applied(tone, dt as int),
    {
        match self.def.effect {
            Effect::Vibrato(v) => Tone {
                pitch: clamp_i32(tone.pitch as i128 + vibration_delta_of(&v, self.pos) as i128),
                volume: tone.volume,
                panning: tone.panning,
            },
            Effect::Tremolo(v) => Tone {
                volume: clamp_i32(tone.volume as i128 + vibration_delta_of(&v, self.pos) as i128),
                pitch: tone.pitch,
                panning: tone.panning,
            },
            Effect::Panbrello(v) => Tone {
                panning: clamp_i32(tone.panning as i128 + vibration_delta_of(&v, self.pos) as i128),
                pitch: tone.pitch,
                volume: tone.volume,
            },
            Effect::Portamento(s) => Tone {
                pitch: clamp_i32(tone.pitch as i128 + slide_delta_of(&s, self.pos, dt) as i128),
                volume: tone.volume,
                panning: tone.panning,
            },
        }
    }
}

/// What a vibration adds at the time `pos`.
pub fn vibration_delta_of(v: &Vibration, pos: i64) -> (r: i64)
    ensures
        r == vibration_delta(*v, pos as int),
{
    let turns: u64 = if pos <= 0 {
        0
    } else {
        let speed: u128 = if v.speed < 0 {
            (-(v.speed as i64)) as u128
        } else {
            v.speed as u128
        };
        proof {
            lemma_product_bound(pos as int, speed as int, i64::MAX as int, 0x8000_0000);
        }
        ((((pos as u128) * speed) / (TICKS_PER_SEC as u128)) % 65_536) as u64
    };
    proof {
        lemma_cos_bound(phase_at(pos as int, v.speed as int));
        lemma_signed_product_bound(
            sat32(scale(v.speed as int, v.depth as int)),
            cos_turns(phase_at(pos as int, v.speed as int)),
            0x8000_0000,
            ONE as int,
        );
        assert(cos_turns(turns as int) == cos_turns(phase_at(pos as int, v.speed as int)));
    }
    let amp: i32 = scale_level(v.speed, v.depth);
    let c: i32 = cos_of_turns(turns);
    let p: i64 = (amp as i64) * (c as i64);
    p / (ONE as i64)
}

/// What a slide adds in a frame of `dt` that starts at the time `pos`.
pub fn slide_delta_of(s: &Slide, pos: i64, dt: i64) -> (r: i64)
    ensures
        r == sat64(slide_delta(*s, pos as int, dt as int)),
{
    if s.length <= 0 {
        return 0;
    }
    let left: i128 = s.length as i128 - pos as i128;
    let within: i128 = if (dt as i128) < left {
        dt as i128
    } else {
        left
    };
    let span: i128 = if within < 0 {
        0
    } else {
        within
    };
    proof {
        lemma_signed_product_bound(
            s.amount as int,
            span as int,
            0x8000_0000,
            0x8000_0000_0000_0000,
        );
    }
    clamp_i64(((s.amount as i128) * span) / (s.length as i128))
}

} // verus!
