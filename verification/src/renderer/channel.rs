//! Voices: one playing note each, with its sampler and its effects.

use vstd::prelude::*;
use crate::common::pattern::{EffectInstance, NoteInstruction};
use crate::common::project::Project;
use crate::curves::{pitched_rate, pitched_rate_of};
use crate::fixed::{
    clamp_i32,
    clamp_i64,
    lemma_product_bound,
    lemma_signed_product_bound,
    sat32,
    sat64,
    scale,
    scale_level,
    secs_of,
    trunc_div,
    ONE,
};
use crate::renderer::effects::{vibration_delta, EffectState, Tone};
use crate::renderer::samplers::{new_sampler_spec, SamplerState, SamplerView};
use crate::stream::AudioBufferSlice;

verus! {

/// A fade out: the time it takes and the time it has run.
#[derive(Clone, Copy, Debug)]
pub struct Fade {
    pub length: i64,
    pub pos: i64,
}

/// One playing note.
pub struct ChannelState {
    pub volume: i32,
    pub panning: i32,
    pub pitch: i32,
    pub effects: Vec<EffectState>,
    pub sampler: SamplerState,
    pub instrument: usize,
    pub sample: usize,
    pub paused: bool,
    pub stopping: bool,
    pub fading: Option<Fade>,
}

/// A voice as a value.
pub struct ChannelView {
    pub volume: i32,
    pub panning: i32,
    pub pitch: i32,
    pub effects: Seq<EffectState>,
    pub sampler: SamplerView,
    pub instrument: usize,
    pub sample: usize,
    pub paused: bool,
    pub stopping: bool,
    pub fading: Option<Fade>,
}

impl View for ChannelState {
    type V = ChannelView;

    open spec fn view(&self) -> ChannelView {
        ChannelView {
            volume: self.volume,
            panning: self.panning,
            pitch: self.pitch,
            effects: self.effects@,
            sampler: self.sampler@,
            instrument: self.instrument,
            sample: self.sample,
            paused: self.paused,
            stopping: self.stopping,
            fading: self.fading,
        }
    }
}

/// The tone after the effects `effects[k..]` have acted on it in turn, for a
/// frame of `dt`.
pub open spec fn effects_applied(effects: Seq<EffectState>, k: int, tone: Tone, dt: int) -> Tone
    decreases effects.len() - k,
{
    if k < 0 || k >= effects.len() {
        tone
    } else {
        effects_applied(effects, k + 1, effects[k].applied(tone, dt), dt)
    }
}

/// The effects after a frame of `dt`, without those that have expired.
pub open spec fn effects_aged(effects: Seq<EffectState>, dt: int) -> Seq<EffectState>
    decreases effects.len(),
{
    if effects.len() == 0 {
        Seq::empty()
    } else {
        let rest = effects_aged(effects.drop_last(), dt);
        let last = effects.last().advanced(dt);
        if last.expired_spec() {
            rest
        } else {
            rest.push(last)
        }
    }
}

/// The effects that a note starts, each at time zero.
pub open spec fn effects_started(defs: Seq<EffectInstance>) -> Seq<EffectState> {
    Seq::new(defs.len(), |i: int| EffectState { def: defs[i], pos: 0 })
}

/// The share of a volume that goes to one side: half of it in the middle,
/// all of it on that side, none of it on the other.
pub open spec fn side_gain(volume: int, panning: int, right: bool) -> int {
    sat32(
        trunc_div(
            volume * (if right {
                ONE + panning
            } else {
                ONE - panning
            }),
            2 * ONE,
        ),
    )
}

impl Fade {
    /// The share of the volume that the fade leaves: it falls evenly from
    /// one to nothing over the length of the fade.
    pub open spec fn gain_spec(self) -> int {
        if self.length <= 0 || self.pos >= self.length {
            0
        } else if self.pos <= 0 {
            ONE as int
        } else {
            ((self.length - self.pos) * ONE) / (self.length as int)
        }
    }

    /// The fade has run its length.
    pub open spec fn done_spec(self) -> bool {
        self.pos >= self.length
    }

    /// The share of the volume that the fade leaves.
    pub fn gain(&self) -> (r: i32)
        ensures
            r == self.gain_spec(),
            0 <= r <= ONE,
    {
        if self.length <= 0 || self.pos >= self.length {
            0
        } else if self.pos <= 0 {
            ONE
        } else {
            let left: u128 = (self.length - self.pos) as u128;
            proof {
                lemma_product_bound(left as int, ONE as int, self.length as int, ONE as int);
                assert((left * ONE) / (self.length as int) <= ONE) by (nonlinear_arith)
                    requires
                        0 <= left <= self.length,
                        self.length > 0,
                        ONE > 0,
                ;
            }
            ((left * (ONE as u128)) / (self.length as u128)) as i32
        }
    }
}

impl ChannelView {
    /// The instrument and the sample exist, and the sampler is of the kind
    /// of its instrument.
    pub open spec fn wf(self, project: Project) -> bool {
        &&& self.instrument < project.instruments@.len()
        &&& self.sample < project.samples@.len()
        &&& self.sampler.wf(project)
    }

    /// The volume, the panning and the pitch.
    pub open spec fn tone(self) -> Tone {
        Tone { volume: self.volume, panning: self.panning, pitch: self.pitch }
    }

    /// The voice with another tone.
    pub open spec fn with_tone(self, tone: Tone) -> ChannelView {
        ChannelView { volume: tone.volume, panning: tone.panning, pitch: tone.pitch, ..self }
    }

    /// The voice after its effects have acted on it for a frame of `dt`.
    pub open spec fn tuned(self, dt: int) -> ChannelView {
        self.with_tone(effects_applied(self.effects, 0, self.tone(), dt))
    }

    /// The volume that is heard: the volume, less what a fade has taken.
    pub open spec fn heard_volume(self) -> int {
        match self.fading {
            None => self.volume as int,
            Some(fade) => sat32(scale(self.volume as int, fade.gain_spec())),
        }
    }

    /// The gain on the left.
    pub open spec fn gain_left(self) -> int {
        side_gain(self.heard_volume(), self.panning as int, false)
    }

    /// The gain on the right.
    pub open spec fn gain_right(self) -> int {
        side_gain(self.heard_volume(), self.panning as int, true)
    }

    /// The window `slice` as the sampler sees it: its rate is scaled by the
    /// ratio of the pitch of the voice to the base pitch of the instrument.
    pub open spec fn pitched(self, project: Project, slice: AudioBufferSlice) -> AudioBufferSlice {
        AudioBufferSlice {
            rate: pitched_rate(
                slice.rate as int,
                self.pitch - project.instruments@[self.instrument as int].base_pitch,
            ) as u32,
            ..slice
        }
    }

    /// The source time that a frame over the window `slice` plays.
    pub open spec fn played_secs(self, project: Project, slice: AudioBufferSlice) -> int {
        secs_of(slice.end - slice.start, self.pitched(project, slice).rate as int)
    }

    /// The voice after a frame over the window `slice`. A paused voice stays
    /// as it is. Else the effects act, the sampler plays the time of the
    /// window at the pitch of the voice, and the clocks of the effects and of
    /// a fade move on by the time of the window.
    pub open spec fn rendered(self, project: Project, slice: AudioBufferSlice) -> ChannelView {
        if self.paused {
            self
        } else {
            let dt = secs_of(slice.end - slice.start, slice.rate as int);
            let tuned = self.tuned(dt);
            let secs = tuned.played_secs(project, slice);
            ChannelView {
                sampler: tuned.sampler.begun(project, secs).ended(project, secs),
                effects: effects_aged(tuned.effects, dt),
                fading: match tuned.fading {
                    None => None,
                    Some(fade) => Some(Fade { pos: sat64(fade.pos + dt) as i64, ..fade }),
                },
                ..tuned
            }
        }
    }

    /// What one side of the output holds after a frame over the window
    /// `slice`: the sampler has played into it at the gain of that side.
    pub open spec fn rendered_side(
        self,
        project: Project,
        dst: Seq<i32>,
        slice: AudioBufferSlice,
        right: bool,
    ) -> Seq<i32> {
        if self.paused {
            dst
        } else {
            let dt = secs_of(slice.end - slice.start, slice.rate as int);
            let tuned = self.tuned(dt);
            let secs = tuned.played_secs(project, slice);
            tuned.sampler.begun(project, secs).played(
                project,
                dst,
                tuned.pitched(project, slice),
                if right {
                    tuned.gain_right()
                } else {
                    tuned.gain_left()
                },
            )
        }
    }

    /// The voice is over: it was stopped, its fade has run out, or its
    /// sampler has nothing more to play.
    pub open spec fn finished_spec(self, project: Project) -> bool {
        ||| self.stopping
        ||| (self.fading is Some && self.fading->Some_0.done_spec())
        ||| self.sampler.finished_spec(project)
    }

    /// The voice that a note starts.
    pub open spec fn from_note(project: Project, ins: NoteInstruction) -> ChannelView {
        ChannelView {
            volume: ins.volume,
            panning: ins.pan,
            pitch: ins.pitch,
            effects: effects_started(ins.effects@),
            sampler: new_sampler_spec(
                project,
                ins.instrument,
                project.instruments@[ins.instrument as int].sample,
            ),
            instrument: ins.instrument,
            sample: project.instruments@[ins.instrument as int].sample,
            paused: false,
            stopping: false,
            fading: None,
        }
    }
}

/// The gain of one side.
pub fn side_gain_of(volume: i32, panning: i32, right: bool) -> (r: i32)
    ensures
        r == side_gain(volume as int, panning as int, right),
{
    let share: i128 = if right {
        ONE as i128 + panning as i128
    } else {
        ONE as i128 - panning as i128
    };
    proof {
        lemma_signed_product_bound(volume as int, share as int, 0x8000_0000, 0x1_0000_0000);
    }
    clamp_i32(((volume as i128) * share) / (2 * (ONE as i128)))
}

impl ChannelState {
    /// A voice of `instrument` on `sample` at `pitch`, at full volume in the
    /// middle, without effects.
    pub fn new(project: &Project, sample: usize, instrument: usize, pitch: i32) -> (r: Self)
        requires
            instrument < project.instruments@.len(),
        ensures
            r@ == (ChannelView {
                volume: ONE,
                panning: 0,
                pitch,
                effects: Seq::empty(),
                sampler: new_sampler_spec(*project, instrument, sample),
                instrument,
                sample,
                paused: false,
                stopping: false,
                fading: None,
            }),
    {
        let sampler = project.instruments[instrument].mode.new_sampler(project, instrument, sample);
        ChannelState {
            instrument,
            sample,
            pitch,
            sampler,
            effects: Vec::new(),
            panning: 0,
            volume: ONE,
            paused: false,
            stopping: false,
            fading: None,
        }
    }

    /// The voice that the note `ins` starts: on the instrument of the note
    /// and its sample, with the pitch, the panning and the volume of the
    /// note, and with its effects at time zero.
    pub fn from_instruction(project: &Project, ins: &NoteInstruction) -> (r: Self)
        requires
            project.wf(),
            ins.instrument < project.instruments@.len(),
        ensures
            r@ == ChannelView::from_note(*project, *ins),
            r@.wf(*project),
    {
        let sample: usize = project.instruments[ins.instrument].sample;
        let sampler = project.instruments[ins.instrument].mode.new_sampler(
            project,
            ins.instrument,
            sample,
        );
        let mut r = ChannelState {
            instrument: ins.instrument,
            sample,
            pitch: ins.pitch,
            sampler,
            effects: Vec::new(),
            panning: ins.pan,
            volume: ins.volume,
            paused: false,
            stopping: false,
            fading: None,
        };
        r.add_effects(ins);
        proof {
            assert(project.instruments@[ins.instrument as int].wf(project.samples@.len() as int));
            assert(r.effects@ =~= effects_started(ins.effects@));
        }
        r
    }

    /// Ends the voice: it plays the frame it is in and is over then.
    pub fn stop(&mut self)
        ensures
            final(self)@ == (ChannelView { stopping: true, ..old(self)@ }),
    {
        self.stopping = true;
    }

    /// Starts a fade out over `amount_secs`.
    pub fn fade(&mut self, amount_secs: i64)
        ensures
            final(self)@ == (ChannelView {
                fading: Some(Fade { length: amount_secs, pos: 0 }),
                ..old(self)@
            }),
    {
        self.fading = Some(Fade { length: amount_secs, pos: 0 });
    }

    /// Pauses a playing voice, and lets a paused voice play on.
    pub fn toggle_pause(&mut self)
        ensures
            final(self)@ == (ChannelView { paused: !old(self).paused, ..old(self)@ }),
    {
        self.paused = !self.paused;
    }

    /// Starts the effects of `instruction` after those that run.
    pub fn add_effects(&mut self, instruction: &NoteInstruction)
        ensures
            final(self)@ == (ChannelView {
                effects: old(self).effects@.add(effects_started(instruction.effects@)),
                ..old(self)@
            }),
    {
        let mut i: usize = 0;
        assert(self.effects@ =~= old(self).effects@.add(
            effects_started(instruction.effects@.subrange(0, 0)),
        ));
        while i < instruction.effects.len()
            invariant
                i <= instruction.effects@.len(),
                self@ == (ChannelView {
                    effects: old(self).effects@.add(
                        effects_started(instruction.effects@.subrange(0, i as int)),
                    ),
                    ..old(self)@
                }),
            decreases instruction.effects@.len() - i,
        {
            self.effects.push(EffectState::new(instruction.effects[i]));
            i = i + 1;
            assert(self.effects@ =~= old(self).effects@.add(
                effects_started(instruction.effects@.subrange(0, i as int)),
            ));
        }
        assert(instruction.effects@.subrange(0, i as int) =~= instruction.effects@);
    }

    /// Moves the clocks of the effects on by `delta_secs` and drops the
    /// effects that have expired.
    pub fn advance_effects(&mut self, delta_secs: i64)
        ensures
            final(self)@ == (ChannelView {
                effects: effects_aged(old(self).effects@, delta_secs as int),
                ..old(self)@
            }),
    {
        let mut kept: Vec<EffectState> = Vec::new();
        let mut i: usize = 0;
        while i < self.effects.len()
            invariant
                i <= self.effects@.len(),
                self@ == old(self)@,
                kept@ == effects_aged(self.effects@.subrange(0, i as int), delta_secs as int),
            decreases self.effects@.len() - i,
        {
            let mut state: EffectState = self.effects[i];
            let expired: bool = state.advance(delta_secs);
            assert(self.effects@.subrange(0, i + 1).drop_last() =~= self.effects@.subrange(
                0,
                i as int,
            ));
            if !expired {
                kept.push(state);
            }
            i = i + 1;
        }
        assert(self.effects@.subrange(0, i as int) =~= self.effects@);
        self.effects = kept;
    }

    /// Lets every effect act on the voice, in their order, for a frame of
    /// `dt`.
    pub fn apply_effects(&mut self, dt: i64)
        ensures
            final(self)@ == old(self)@.tuned(dt as int),
    {
        let mut tone = Tone { volume: self.volume, panning: self.panning, pitch: self.pitch };
        let mut i: usize = 0;
        while i < self.effects.len()
            invariant
                i <= self.effects@.len(),
                self@ == old(self)@,
                effects_applied(self.effects@, i as int, tone, dt as int) == effects_applied(
                    self.effects@,
                    0,
                    old(self)@.tone(),
                    dt as int,
                ),
            decreases self.effects@.len() - i,
        {
            tone = self.effects[i].apply(tone, dt);
            i = i + 1;
        }
        self.volume = tone.volume;
        self.panning = tone.panning;
        self.pitch = tone.pitch;
    }

    /// Renders one frame into the window `slice` of both sides.
    pub fn render(
        &mut self,
        project: &Project,
        left: &mut Vec<i32>,
        right: &mut Vec<i32>,
        slice: AudioBufferSlice,
    )
        requires
            project.wf(),
            old(self)@.wf(*project),
            slice.fits(old(left)@.len() as int),
            slice.fits(old(right)@.len() as int),
        ensures
            final(self)@ == old(self)@.rendered(*project, slice),
            final(self)@.wf(*project),
            final(left)@ == old(self)@.rendered_side(*project, old(left)@, slice, false),
            final(right)@ == old(self)@.rendered_side(*project, old(right)@, slice, true),
            final(left)@.len() == old(left)@.len(),
            final(right)@.len() == old(right)@.len(),
    {
        if self.paused {
            return ;
        }
        let dt: i64 = slice.len_secs();
        self.apply_effects(dt);
        let base: i32 = project.instruments[self.instrument].base_pitch;
        let pitched: AudioBufferSlice = slice.at_rate(
            pitched_rate_of(slice.rate, self.pitch as i64 - base as i64),
        );
        let heard: i32 = match self.fading {
            None => self.volume,
            Some(fade) => scale_level(self.volume, fade.gain()),
        };
        let secs: i64 = pitched.len_secs();
        self.sampler.begin(project, secs);
        self.sampler.play(project, left, pitched, side_gain_of(heard, self.panning, false));
        self.sampler.play(project, right, pitched, side_gain_of(heard, self.panning, true));
        self.sampler.end(project, secs);
        self.advance_effects(dt);
        self.fading =
        match self.fading {
            None => None,
            Some(fade) => Some(
                Fade { length: fade.length, pos: clamp_i64(fade.pos as i128 + dt as i128) },
            ),
        };
    }

    /// Goes on to the next loop of the sampler; `false` where there is none.
    pub fn next_loop(&mut self, project: &Project) -> (r: bool)
        requires
            old(self)@.wf(*project),
        ensures
            r == old(self)@.sampler.has_next_loop(*project),
            r ==> final(self)@ == (ChannelView {
                sampler: old(self)@.sampler.in_next_loop(),
                ..old(self)@
            }),
            !r ==> final(self)@ == old(self)@,
            final(self)@.wf(*project),
    {
        self.sampler.next_loop(project)
    }

    /// Whether the voice is over.
    pub fn finished(&self, project: &Project) -> (r: bool)
        requires
            self@.wf(*project),
        ensures
            r == self@.finished_spec(*project),
    {
        let faded: bool = match self.fading {
            None => false,
            Some(fade) => fade.pos >= fade.length,
        };
        self.stopping || faded || self.sampler.finished(project)
    }
}

/// A vibrato without depth leaves the pitch, as every other part of the
/// tone, as it is: at any time, for any frame.
pub proof fn lemma_flat_vibrato(state: EffectState, tone: Tone, dt: int)
    requires
        state.def.effect is Vibrato,
        state.def.effect->Vibrato_0.depth == 0,
    ensures
        state.applied(tone, dt) == tone,
{
    let v = state.def.effect->Vibrato_0;
    assert(v.speed * 0 == 0);
    assert(scale(v.speed as int, 0) == 0);
    assert(vibration_delta(v, state.pos as int) == 0) by {
        let c = crate::curves::cos_turns(
            crate::renderer::effects::phase_at(state.pos as int, v.speed as int),
        );
        assert(0 * c == 0);
    }
}

/// A voice whose effects are all vibratos without depth keeps its pitch, its
/// volume and its panning through any frame, whenever the frame comes and
/// however long it is.
pub proof fn lemma_flat_vibratos(effects: Seq<EffectState>, k: int, tone: Tone, dt: int)
    requires
        0 <= k,
        flat_vibratos(effects),
    ensures
        effects_applied(effects, k, tone, dt) == tone,
    decreases effects.len() - k,
{
    if k < effects.len() {
        lemma_flat_vibrato(effects[k], tone, dt);
        lemma_flat_vibratos(effects, k + 1, tone, dt);
    }
}

/// Every effect is a vibrato without depth.
pub open spec fn flat_vibratos(effects: Seq<EffectState>) -> bool {
    forall|i: int|
        0 <= i < effects.len() ==> (#[trigger] effects[i]).def.effect is Vibrato
            && effects[i].def.effect->Vibrato_0.depth == 0
}

/// Vibratos without depth are still that after a frame.
pub proof fn lemma_flat_vibratos_age(effects: Seq<EffectState>, dt: int)
    requires
        flat_vibratos(effects),
    ensures
        flat_vibratos(effects_aged(effects, dt)),
    decreases effects.len(),
{
    if effects.len() > 0 {
        assert(effects.last() == effects[effects.len() - 1]);
        assert(flat_vibratos(effects.drop_last())) by {
            assert forall|i: int| 0 <= i < effects.drop_last().len() implies (
            #[trigger] effects.drop_last()[i]).def.effect is Vibrato
                && effects.drop_last()[i].def.effect->Vibrato_0.depth == 0 by {
                assert(effects.drop_last()[i] == effects[i]);
            }
        }
        lemma_flat_vibratos_age(effects.drop_last(), dt);
    }
}

/// A frame leaves the pitch of a voice whose effects are all vibratos
/// without depth as it is, with its volume and its panning; and its effects
/// are all vibratos without depth after the frame too. So the pitch stays
/// through any number of frames, whatever windows they are rendered over.
pub proof fn lemma_flat_vibrato_voice(channel: ChannelView, project: Project, slice: AudioBufferSlice)
    requires
        flat_vibratos(channel.effects),
    ensures
        channel.rendered(project, slice).pitch == channel.pitch,
        channel.rendered(project, slice).volume == channel.volume,
        channel.rendered(project, slice).panning == channel.panning,
        flat_vibratos(channel.rendered(project, slice).effects),
{
    let dt = secs_of(slice.end - slice.start, slice.rate as int);
    lemma_flat_vibratos(channel.effects, 0, channel.tone(), dt);
    lemma_flat_vibratos_age(channel.effects, dt);
}

} // verus!
