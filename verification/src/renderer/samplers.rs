//! Samplers: the state machines that read a sample into a window of output.

use vstd::prelude::*;
use crate::common::instrument::{BasicMode, GranulatingMode, InstrumentMode};
use crate::common::position::{LoopDef, Position, Subseg};
use crate::common::project::Project;
use crate::common::sample::Sample;
use crate::fixed::{
    clamp_i64,
    clamp_int,
    lemma_product_bound,
    min_int,
    sample_count,
    sample_index,
    samples_before,
    samples_in,
    sat32,
    sat64,
    scale,
    scale_level,
    secs_of,
    ONE,
};
use crate::resample::window;
use crate::stream::AudioBufferSlice;

verus! {

/// Where one run of playback reads and writes: the samples
/// `src_from..src_to` of the source go to the samples `dst_from..dst_to` of
/// the output.
#[derive(Clone, Copy, Debug)]
pub struct SubsegPlan {
    pub src_from: usize,
    pub src_to: usize,
    pub dst_from: usize,
    pub dst_to: usize,
}

/// Where the run `seg`, which starts `offs` into the window `slice`, reads
/// and writes.
///
/// The run covers the source times between its start and its end. Only the
/// part of them that lies within the sample is heard; it goes to the output
/// times that the run reaches it at. The source samples are those that the
/// heard part touches, at the base rate of the sample: from the one at its
/// start up to the last one that begins before its end. The output samples
/// are those of the window between the two output times, at the rate of the
/// window.
pub open spec fn plan_spec(sample: Sample, seg: Subseg, offs: int, slice: AudioBufferSlice) -> SubsegPlan {
    let rev = seg.from.reversing;
    let left = if rev {
        seg.from.at - seg.length
    } else {
        seg.from.at as int
    };
    let right = if rev {
        seg.from.at as int
    } else {
        seg.from.at + seg.length
    };
    let heard_left = clamp_int(left, 0, sample.duration());
    let heard_right = clamp_int(right, 0, sample.duration());
    let lead = if rev {
        right - heard_right
    } else {
        heard_left - left
    };
    let tail = if rev {
        right - heard_left
    } else {
        heard_right - left
    };
    let n = sample.audio@.len() as int;
    let a = min_int(samples_in(heard_left, sample.baserate as int), n);
    let b = min_int(samples_before(heard_right, sample.baserate as int), n);
    let out = slice.sub_spec(sat64(offs + lead), sat64(offs + tail));
    SubsegPlan {
        src_from: a as usize,
        src_to: (if b < a {
            a
        } else {
            b
        }) as usize,
        dst_from: out.start,
        dst_to: out.end,
    }
}

/// `dst` after the run `seg` of `sample` has been mixed into the window
/// `slice` at `gain`, starting `offs` into the window.
pub open spec fn subseg_mixed(
    sample: Sample,
    seg: Subseg,
    offs: int,
    dst: Seq<i32>,
    slice: AudioBufferSlice,
    gain: int,
) -> Seq<i32> {
    let plan = plan_spec(sample, seg, offs, slice);
    slice.resampler.mixed(
        window(sample.audio@, plan.src_from as int, plan.src_to as int, seg.from.reversing),
        dst,
        plan.dst_from as int,
        plan.dst_to as int,
        gain,
    )
}

/// `dst` after the runs `segs[k..]` have been mixed into the window one after
/// the other, the first of them starting `offs` into the window.
pub open spec fn segs_mixed(
    sample: Sample,
    segs: Seq<Subseg>,
    k: int,
    offs: int,
    dst: Seq<i32>,
    slice: AudioBufferSlice,
    gain: int,
) -> Seq<i32>
    decreases segs.len() - k,
{
    if k < 0 || k >= segs.len() {
        dst
    } else {
        segs_mixed(
            sample,
            segs,
            k + 1,
            sat64(offs + segs[k].length),
            subseg_mixed(sample, segs[k], offs, dst, slice, gain),
            slice,
            gain,
        )
    }
}

/// Finds where a run reads and writes.
pub fn plan_subseg(sample: &Sample, seg: &Subseg, offs: i64, slice: AudioBufferSlice) -> (r:
    SubsegPlan)
    requires
        slice.wf(),
    ensures
        r == plan_spec(*sample, *seg, offs as int, slice),
        r.src_from <= r.src_to <= sample.audio@.len(),
        slice.start <= r.dst_from <= r.dst_to <= slice.end,
{
    let rev: bool = seg.from.reversing;
    let left: i128 = if rev {
        seg.from.at as i128 - seg.length as i128
    } else {
        seg.from.at as i128
    };
    let right: i128 = if rev {
        seg.from.at as i128
    } else {
        seg.from.at as i128 + seg.length as i128
    };
    let dur: i64 = sample.length();
    let heard_left: i64 = clamp_time(left, dur);
    let heard_right: i64 = clamp_time(right, dur);
    let lead: i128 = if rev {
        right - heard_right as i128
    } else {
        heard_left as i128 - left
    };
    let tail: i128 = if rev {
        right - heard_left as i128
    } else {
        heard_right as i128 - left
    };
    let n: usize = sample.audio.len();
    let a: usize = sample_index(heard_left, sample.baserate, n);
    let b: usize = sample_count(heard_right, sample.baserate, n);
    let out: AudioBufferSlice = slice.sub(
        clamp_i64(offs as i128 + lead),
        clamp_i64(offs as i128 + tail),
    );
    SubsegPlan {
        src_from: a,
        src_to: if b < a {
            a
        } else {
            b
        },
        dst_from: out.start,
        dst_to: out.end,
    }
}

fn clamp_time(t: i128, hi: i64) -> (r: i64)
    requires
        hi >= 0,
    ensures
        r == clamp_int(t as int, 0, hi as int),
{
    if t < 0 {
        0
    } else if t > hi as i128 {
        hi
    } else {
        t as i64
    }
}

/// Mixes one run of `sample` into the window `slice` of `out`.
pub fn mix_subseg(
    sample: &Sample,
    seg: &Subseg,
    out: &mut Vec<i32>,
    slice: AudioBufferSlice,
    offs: i64,
    gain: i32,
)
    requires
        slice.fits(old(out)@.len() as int),
    ensures
        final(out)@ == subseg_mixed(*sample, *seg, offs as int, old(out)@, slice, gain as int),
        final(out)@.len() == old(out)@.len(),
{
    let plan: SubsegPlan = plan_subseg(sample, seg, offs, slice);
    slice.resampler.resample_window(
        &sample.audio,
        plan.src_from,
        plan.src_to,
        seg.from.reversing,
        out,
        plan.dst_from,
        plan.dst_to,
        gain,
    );
}

/// The state of plain playback: a playhead in a sample and the loop it is in.
#[derive(Clone, Copy, Debug)]
pub struct BasicSamplerState {
    pub instrument: usize,
    pub sample: usize,
    pub position: Position,
    pub curr_loop: usize,
}

impl BasicSamplerState {
    /// The instrument plays plainly, the sample exists, and the current loop
    /// is one of the loops of the mode, or stands right after them.
    pub open spec fn wf(self, project: Project) -> bool {
        &&& self.instrument < project.instruments@.len()
        &&& project.instruments@[self.instrument as int].mode is Basic
        &&& self.sample < project.samples@.len()
        &&& self.curr_loop <= self.def(project).loops@.len()
    }

    /// The mode of the instrument.
    pub open spec fn def(self, project: Project) -> BasicMode {
        project.instruments@[self.instrument as int].mode->Basic_0
    }

    /// The loop that is played: the current one of the mode, or none once
    /// the loops are used up.
    pub open spec fn this_loop_spec(self, project: Project) -> LoopDef {
        if self.curr_loop < self.def(project).loops@.len() {
            self.def(project).loops@[self.curr_loop as int]
        } else {
            LoopDef::Off
        }
    }

    /// The runs that the time of the window `slice` falls into, from the
    /// playhead on.
    pub open spec fn runs(self, project: Project, slice: AudioBufferSlice) -> Seq<Subseg> {
        self.this_loop_spec(project).subsegs_spec(
            self.position,
            secs_of(slice.end - slice.start, slice.rate as int),
        )
    }

    /// What a window holds after this state has played into it: the runs of
    /// its time, mixed in one after the other. Without its sample a state
    /// plays nothing.
    pub open spec fn played(
        self,
        project: Project,
        dst: Seq<i32>,
        slice: AudioBufferSlice,
        gain: int,
    ) -> Seq<i32> {
        if self.sample < project.samples@.len() {
            segs_mixed(
                project.samples@[self.sample as int],
                self.runs(project, slice),
                0,
                0,
                dst,
                slice,
                gain,
            )
        } else {
            dst
        }
    }

    /// The state after `secs` of playback.
    pub open spec fn advanced(self, project: Project, secs: int) -> BasicSamplerState {
        BasicSamplerState {
            position: self.this_loop_spec(project).advance_spec(self.position, secs),
            ..self
        }
    }

    /// A sampler at the start of the mode of `instrument`, in its first loop.
    pub fn new(project: &Project, instrument: usize, sample: usize) -> (r: Self)
        requires
            instrument < project.instruments@.len(),
            project.instruments@[instrument as int].mode is Basic,
        ensures
            r == (BasicSamplerState {
                instrument,
                sample,
                position: Position {
                    at: project.instruments@[instrument as int].mode->Basic_0.start,
                    reversing: false,
                },
                curr_loop: 0,
            }),
    {
        let start: i64 = match &project.instruments[instrument].mode {
            InstrumentMode::Basic(def) => def.start,
            InstrumentMode::Granulating(_) => 0,
        };
        BasicSamplerState {
            instrument,
            sample,
            position: Position { at: start, reversing: false },
            curr_loop: 0,
        }
    }

    /// Goes on to the next loop of the mode. Where there is none, nothing
    /// changes and the result is `false`: the voice is to be cut.
    pub fn next_loop(&mut self, project: &Project) -> (r: bool)
        requires
            old(self).wf(*project),
        ensures
            r == (old(self).curr_loop + 1 < old(self).def(*project).loops@.len()),
            r ==> *final(self) == (BasicSamplerState {
                curr_loop: (old(self).curr_loop + 1) as usize,
                ..*old(self)
            }),
            !r ==> *final(self) == *old(self),
    {
        let loops: usize = match &project.instruments[self.instrument].mode {
            InstrumentMode::Basic(def) => def.loops.len(),
            InstrumentMode::Granulating(_) => 0,
        };
        if self.curr_loop < loops && self.curr_loop + 1 < loops {
            self.curr_loop = self.curr_loop + 1;
            true
        } else {
            false
        }
    }

    /// The loop that is played.
    pub fn this_loop(&self, project: &Project) -> (r: LoopDef)
        requires
            self.wf(*project),
        ensures
            r == self.this_loop_spec(*project),
    {
        match &project.instruments[self.instrument].mode {
            InstrumentMode::Basic(def) => {
                if self.curr_loop < def.loops.len() {
                    def.loops[self.curr_loop]
                } else {
                    LoopDef::Off
                }
            },
            InstrumentMode::Granulating(_) => LoopDef::Off,
        }
    }

    /// Partitions `after_secs` of playback from `from` by the stops of the
    /// loop that is played.
    pub fn subsegs(&self, project: &Project, from: Position, after_secs: i64) -> (r: Vec<Subseg>)
        requires
            project.wf(),
            self.wf(*project),
        ensures
            r@ == self.this_loop_spec(*project).subsegs_spec(from, after_secs as int),
    {
        let this_loop: LoopDef = self.this_loop(project);
        proof {
            lemma_loop_wf(*project, self.instrument as int, self.curr_loop as int);
        }
        this_loop.subsegs(from, after_secs)
    }

    /// Mixes one run into the window `slice` of `out`.
    pub fn render_subseg(
        &self,
        project: &Project,
        subseg: &Subseg,
        out: &mut Vec<i32>,
        slice: AudioBufferSlice,
        offs: i64,
        gain: i32,
    )
        requires
            self.wf(*project),
            slice.fits(old(out)@.len() as int),
        ensures
            final(out)@ == subseg_mixed(
                project.samples@[self.sample as int],
                *subseg,
                offs as int,
                old(out)@,
                slice,
                gain as int,
            ),
    {
        mix_subseg(&project.samples[self.sample], subseg, out, slice, offs, gain);
    }

    /// Plays the time of the window `slice` into it, from the playhead on,
    /// and leaves the playhead where it is.
    pub fn play(&self, project: &Project, out: &mut Vec<i32>, slice: AudioBufferSlice, gain: i32)
        requires
            project.wf(),
            self.wf(*project),
            slice.fits(old(out)@.len() as int),
        ensures
            final(out)@ == self.played(*project, old(out)@, slice, gain as int),
            final(out)@.len() == old(out)@.len(),
    {
        let length: i64 = slice.len_secs();
        let subsegs: Vec<Subseg> = self.subsegs(project, self.position, length);
        let mut render_offs: i64 = 0;
        let mut k: usize = 0;
        while k < subsegs.len()
            invariant
                k <= subsegs@.len(),
                self.wf(*project),
                slice.fits(out@.len() as int),
                out@.len() == old(out)@.len(),
                segs_mixed(
                    project.samples@[self.sample as int],
                    subsegs@,
                    k as int,
                    render_offs as int,
                    out@,
                    slice,
                    gain as int,
                ) == self.played(*project, old(out)@, slice, gain as int),
            decreases subsegs@.len() - k,
        {
            self.render_subseg(project, &subsegs[k], out, slice, render_offs, gain);
            render_offs = clamp_i64(render_offs as i128 + subsegs[k].length as i128);
            k = k + 1;
        }
    }

    /// Moves the playhead on by `secs` of playback.
    pub fn advance(&mut self, project: &Project, secs: i64)
        requires
            project.wf(),
            old(self).wf(*project),
        ensures
            *final(self) == old(self).advanced(*project, secs as int),
    {
        let subsegs: Vec<Subseg> = self.subsegs(project, self.position, secs);
        if subsegs.len() > 0 {
            self.set_position_after(&subsegs[subsegs.len() - 1]);
        }
    }

    /// Plays the time of the window `slice` into it and moves the playhead on
    /// by that time.
    pub fn render(&mut self, project: &Project, out: &mut Vec<i32>, slice: AudioBufferSlice, gain: i32)
        requires
            project.wf(),
            old(self).wf(*project),
            slice.fits(old(out)@.len() as int),
        ensures
            final(out)@ == old(self).played(*project, old(out)@, slice, gain as int),
            *final(self) == old(self).advanced(
                *project,
                secs_of(slice.end - slice.start, slice.rate as int),
            ),
    {
        self.play(project, out, slice, gain);
        self.advance(project, slice.len_secs());
    }

    fn set_position_after(&mut self, subseg: &Subseg)
        ensures
            *final(self) == (BasicSamplerState {
                position: subseg.from.after_spec(subseg.length as int),
                ..*old(self)
            }),
    {
        self.position = subseg.end();
    }
}

/// One playing copy of the granulated segment.
#[derive(Clone, Copy, Debug)]
pub struct GranuleState {
    pub at: i64,
    pub age: i64,
    pub volume: i32,
}

impl GranuleState {
    /// The place in its life that a granule of age `age` has reached, as a
    /// level from zero to one, where the life lasts `life`.
    pub open spec fn life_position(age: int, life: int) -> int {
        if age <= 0 || life <= 0 {
            0
        } else {
            min_int(ONE as int, (age * ONE) / life)
        }
    }

    /// The gain of the envelope where the granule stands in its life.
    pub open spec fn volume_spec(self, def: GranulatingMode) -> int {
        def.smoothing.factor_spec(
            Self::life_position(self.age as int, def.segment.to - def.segment.from),
        )
    }

    /// The gain at which the granule plays, for a voice that plays at `gain`:
    /// the gain of the voice, of the mode and of the envelope, multiplied.
    pub open spec fn gain_spec(self, def: GranulatingMode, gain: int) -> int {
        sat32(scale(sat32(scale(gain, def.gain as int)), self.volume_spec(def)))
    }

    /// The granule after `amount` of playback.
    pub open spec fn advanced(self, amount: int) -> GranuleState {
        GranuleState {
            at: sat64(self.at + amount) as i64,
            age: sat64(self.age + amount) as i64,
            volume: self.volume,
        }
    }

    /// What a window holds after the granule has played `secs` into it: one
    /// run forwards from where the granule stands.
    pub open spec fn played(
        self,
        sample: Sample,
        def: GranulatingMode,
        secs: int,
        dst: Seq<i32>,
        slice: AudioBufferSlice,
        gain: int,
    ) -> Seq<i32> {
        subseg_mixed(
            sample,
            Subseg { length: secs as i64, from: Position { at: self.at, reversing: false } },
            0,
            dst,
            slice,
            self.gain_spec(def, gain),
        )
    }

    /// A granule at the source time `at`, `age` old.
    pub fn new(at: i64, age: i64, volume: i32) -> (r: Self)
        ensures
            r == (GranuleState { at, age, volume }),
    {
        GranuleState { at, age, volume }
    }

    /// Moves the granule on by `amount` of playback.
    pub fn advance(&mut self, amount: i64)
        ensures
            *final(self) == old(self).advanced(amount as int),
    {
        self.age = clamp_i64(self.age as i128 + amount as i128);
        self.at = clamp_i64(self.at as i128 + amount as i128);
    }

    /// The gain of the envelope where the granule stands in its life.
    pub fn volume(&self, def: &GranulatingMode) -> (r: i32)
        ensures
            r == self.volume_spec(*def),
            -ONE <= r <= ONE,
    {
        let life: i128 = def.segment.to as i128 - def.segment.from as i128;
        let position: i32 = if self.age <= 0 || life <= 0 {
            0
        } else {
            proof {
                lemma_product_bound(self.age as int, ONE as int, i64::MAX as int, ONE as int);
            }
            let reached: i128 = ((self.age as i128) * (ONE as i128)) / life;
            if reached >= ONE as i128 {
                ONE
            } else {
                reached as i32
            }
        };
        def.smoothing.factor_at(position)
    }

    /// Plays the time of the window `slice` into it, from where the granule
    /// stands.
    pub fn render(
        &self,
        sample: &Sample,
        def: &GranulatingMode,
        out: &mut Vec<i32>,
        slice: AudioBufferSlice,
        gain: i32,
    )
        requires
            slice.fits(old(out)@.len() as int),
        ensures
            final(out)@ == self.played(
                *sample,
                *def,
                secs_of(slice.end - slice.start, slice.rate as int),
                old(out)@,
                slice,
                gain as int,
            ),
            final(out)@.len() == old(out)@.len(),
    {
        let own: i32 = scale_level(scale_level(gain, def.gain), self.volume(def));
        let run = Subseg {
            length: slice.len_secs(),
            from: Position { at: self.at, reversing: false },
        };
        mix_subseg(sample, &run, out, slice, 0, own);
    }
}

/// The granules `granules[k..]`, played one after the other into a window.
pub open spec fn granules_played(
    sample: Sample,
    def: GranulatingMode,
    granules: Seq<GranuleState>,
    k: int,
    secs: int,
    dst: Seq<i32>,
    slice: AudioBufferSlice,
    gain: int,
) -> Seq<i32>
    decreases granules.len() - k,
{
    if k < 0 || k >= granules.len() {
        dst
    } else {
        granules_played(
            sample,
            def,
            granules,
            k + 1,
            secs,
            granules[k].played(sample, def, secs, dst, slice, gain),
            slice,
            gain,
        )
    }
}

/// The granules after `secs` of playback, without those that have reached
/// the age `life`.
pub open spec fn granules_aged(granules: Seq<GranuleState>, secs: int, life: int) -> Seq<
    GranuleState,
>
    decreases granules.len(),
{
    if granules.len() == 0 {
        Seq::empty()
    } else {
        let rest = granules_aged(granules.drop_last(), secs, life);
        let last = granules.last().advanced(secs);
        if last.age >= life {
            rest
        } else {
            rest.push(last)
        }
    }
}

/// The number of granules that start while the age of a sampler goes from
/// `before` to `after`: one for each multiple of `interval` that is crossed.
pub open spec fn onsets(before: int, after: int, interval: int) -> int {
    if interval <= 0 || before < 0 || after <= before {
        0
    } else {
        after / interval - before / interval
    }
}

/// The state of granular playback: the granules that play and the time
/// since the first onset.
pub struct GranulatingSamplerState {
    pub instrument: usize,
    pub sample: usize,
    pub granules: Vec<GranuleState>,
    pub age: i64,
}

/// A granular sampler as a value: its granules are a sequence.
pub struct GranulatingSamplerView {
    pub instrument: usize,
    pub sample: usize,
    pub granules: Seq<GranuleState>,
    pub age: i64,
}

impl View for GranulatingSamplerState {
    type V = GranulatingSamplerView;

    open spec fn view(&self) -> GranulatingSamplerView {
        GranulatingSamplerView {
            instrument: self.instrument,
            sample: self.sample,
            granules: self.granules@,
            age: self.age,
        }
    }
}

impl GranulatingSamplerView {
    /// The instrument granulates and the sample exists.
    pub open spec fn wf(self, project: Project) -> bool {
        &&& self.instrument < project.instruments@.len()
        &&& project.instruments@[self.instrument as int].mode is Granulating
        &&& self.sample < project.samples@.len()
    }

    /// The mode of the instrument.
    pub open spec fn def(self, project: Project) -> GranulatingMode {
        project.instruments@[self.instrument as int].mode->Granulating_0
    }

    /// The granule that an onset starts.
    pub open spec fn fresh(self, project: Project) -> GranuleState {
        GranuleState { at: self.def(project).segment.from, age: 0, volume: ONE }
    }

    /// The sampler once a frame of `secs` has begun: the age has grown by
    /// `secs`, and the onsets that this crossed have each started a granule
    /// at the start of the segment.
    pub open spec fn begun(self, project: Project, secs: int) -> GranulatingSamplerView {
        let age = sat64(self.age + secs);
        GranulatingSamplerView {
            age: age as i64,
            granules: self.granules.add(
                Seq::new(
                    onsets(self.age as int, age, self.def(project).interval as int) as nat,
                    |i: int| self.fresh(project),
                ),
            ),
            ..self
        }
    }

    /// What a window holds after the granules have played into it, one
    /// after the other. Without its sample a sampler plays nothing.
    pub open spec fn played(
        self,
        project: Project,
        dst: Seq<i32>,
        slice: AudioBufferSlice,
        gain: int,
    ) -> Seq<i32> {
        if self.sample < project.samples@.len() {
            granules_played(
                project.samples@[self.sample as int],
                self.def(project),
                self.granules,
                0,
                secs_of(slice.end - slice.start, slice.rate as int),
                dst,
                slice,
                gain,
            )
        } else {
            dst
        }
    }

    /// The sampler once a frame of `secs` has ended: every granule has
    /// played on by `secs`, and those that have outlived the segment are
    /// gone.
    pub open spec fn ended(self, project: Project, secs: int) -> GranulatingSamplerView {
        GranulatingSamplerView {
            granules: granules_aged(
                self.granules,
                secs,
                self.def(project).segment.to - self.def(project).segment.from,
            ),
            ..self
        }
    }
}

impl GranulatingSamplerState {
    /// A sampler without granules.
    pub fn new(instrument: usize, sample: usize) -> (r: Self)
        ensures
            r@ == (GranulatingSamplerView { instrument, sample, granules: Seq::empty(), age: 0 }),
    {
        GranulatingSamplerState { instrument, sample, granules: Vec::new(), age: 0 }
    }

    /// There is no next loop: nothing changes, and the result is `false`.
    pub fn next_loop(&mut self) -> (r: bool)
        ensures
            !r,
            *final(self) == *old(self),
    {
        false
    }

    /// Begins a frame of `secs`.
    pub fn begin(&mut self, project: &Project, secs: i64)
        requires
            old(self)@.wf(*project),
        ensures
            final(self)@ == old(self)@.begun(*project, secs as int),
    {
        let def: GranulatingMode = match &project.instruments[self.instrument].mode {
            InstrumentMode::Granulating(def) => *def,
            InstrumentMode::Basic(_) => return ,
        };
        let before: i64 = self.age;
        let after: i64 = clamp_i64(before as i128 + secs as i128);
        self.age = after;
        let count: i64 = if def.interval <= 0 || before < 0 || after <= before {
            0
        } else {
            assert(0 <= before / def.interval <= after / def.interval <= after)
                by (nonlinear_arith)
                requires
                    0 <= before <= after,
                    def.interval > 0,
            ;
            after / def.interval - before / def.interval
        };
        assert(count == onsets(before as int, after as int, def.interval as int));
        let fresh = GranuleState { at: def.segment.from, age: 0, volume: ONE };
        let mut i: i64 = 0;
        while i < count
            invariant
                0 <= i <= count,
                self.instrument == old(self).instrument,
                self.sample == old(self).sample,
                self.age == after,
                fresh == old(self)@.fresh(*project),
                self.granules@ == old(self).granules@.add(
                    Seq::new(i as nat, |k: int| old(self)@.fresh(*project)),
                ),
            decreases count - i,
        {
            self.granules.push(fresh);
            i = i + 1;
            assert(self.granules@ =~= old(self).granules@.add(
                Seq::new(i as nat, |k: int| old(self)@.fresh(*project)),
            ));
        }
        assert(self.granules@ =~= old(self)@.begun(*project, secs as int).granules);
    }

    /// Plays every granule into the window `slice` of `out`.
    pub fn play(&self, project: &Project, out: &mut Vec<i32>, slice: AudioBufferSlice, gain: i32)
        requires
            self@.wf(*project),
            slice.fits(old(out)@.len() as int),
        ensures
            final(out)@ == self@.played(*project, old(out)@, slice, gain as int),
            final(out)@.len() == old(out)@.len(),
    {
        let def: GranulatingMode = match &project.instruments[self.instrument].mode {
            InstrumentMode::Granulating(def) => *def,
            InstrumentMode::Basic(_) => return ,
        };
        let ghost secs = secs_of(slice.end - slice.start, slice.rate as int);
        let mut k: usize = 0;
        while k < self.granules.len()
            invariant
                k <= self.granules@.len(),
                self@.wf(*project),
                def == self@.def(*project),
                slice.fits(out@.len() as int),
                out@.len() == old(out)@.len(),
                secs == secs_of(slice.end - slice.start, slice.rate as int),
                granules_played(
                    project.samples@[self.sample as int],
                    def,
                    self.granules@,
                    k as int,
                    secs,
                    out@,
                    slice,
                    gain as int,
                ) == self@.played(*project, old(out)@, slice, gain as int),
            decreases self.granules@.len() - k,
        {
            self.granules[k].render(&project.samples[self.sample], &def, out, slice, gain);
            k = k + 1;
        }
    }

    /// Ends a frame of `secs`.
    pub fn end(&mut self, project: &Project, secs: i64)
        requires
            old(self)@.wf(*project),
        ensures
            final(self)@ == old(self)@.ended(*project, secs as int),
    {
        let def: GranulatingMode = match &project.instruments[self.instrument].mode {
            InstrumentMode::Granulating(def) => *def,
            InstrumentMode::Basic(_) => return ,
        };
        let life: i128 = def.segment.to as i128 - def.segment.from as i128;
        let mut kept: Vec<GranuleState> = Vec::new();
        let mut k: usize = 0;
        while k < self.granules.len()
            invariant
                k <= self.granules@.len(),
                *self == *old(self),
                life == def.segment.to - def.segment.from,
                kept@ == granules_aged(self.granules@.subrange(0, k as int), secs as int, life as int),
            decreases self.granules@.len() - k,
        {
            let mut granule: GranuleState = self.granules[k];
            granule.advance(secs);
            assert(self.granules@.subrange(0, k + 1).drop_last() =~= self.granules@.subrange(
                0,
                k as int,
            ));
            if (granule.age as i128) < life {
                kept.push(granule);
            }
            k = k + 1;
        }
        assert(self.granules@.subrange(0, k as int) =~= self.granules@);
        self.granules = kept;
    }

    /// Renders one frame into the window `slice` of `out`: begins it, plays
    /// the granules, and ends it.
    pub fn render(&mut self, project: &Project, out: &mut Vec<i32>, slice: AudioBufferSlice, gain: i32)
        requires
            old(self)@.wf(*project),
            slice.fits(old(out)@.len() as int),
        ensures
            final(out)@.len() == old(out)@.len(),
            final(out)@ == old(self)@.begun(
                *project,
                secs_of(slice.end - slice.start, slice.rate as int),
            ).played(*project, old(out)@, slice, gain as int),
            final(self)@ == old(self)@.begun(
                *project,
                secs_of(slice.end - slice.start, slice.rate as int),
            ).ended(*project, secs_of(slice.end - slice.start, slice.rate as int)),
    {
        let secs: i64 = slice.len_secs();
        self.begin(project, secs);
        self.play(project, out, slice, gain);
        self.end(project, secs);
    }
}

/// A sampler of either kind.
pub enum SamplerState {
    Basic(BasicSamplerState),
    Granulating(GranulatingSamplerState),
}

/// A sampler as a value.
pub enum SamplerView {
    Basic(BasicSamplerState),
    Granulating(GranulatingSamplerView),
}

impl View for SamplerState {
    type V = SamplerView;

    open spec fn view(&self) -> SamplerView {
        match self {
            SamplerState::Basic(state) => SamplerView::Basic(*state),
            SamplerState::Granulating(state) => SamplerView::Granulating(state@),
        }
    }
}

impl SamplerView {
    /// The sampler is of the kind of its instrument, and its sample exists.
    pub open spec fn wf(self, project: Project) -> bool {
        match self {
            SamplerView::Basic(state) => state.wf(project),
            SamplerView::Granulating(state) => state.wf(project),
        }
    }

    /// The sampler once a frame of `secs` has begun.
    pub open spec fn begun(self, project: Project, secs: int) -> SamplerView {
        match self {
            SamplerView::Basic(state) => self,
            SamplerView::Granulating(state) => SamplerView::Granulating(state.begun(project, secs)),
        }
    }

    /// What a window holds after the sampler has played into it.
    pub open spec fn played(
        self,
        project: Project,
        dst: Seq<i32>,
        slice: AudioBufferSlice,
        gain: int,
    ) -> Seq<i32> {
        match self {
            SamplerView::Basic(state) => state.played(project, dst, slice, gain),
            SamplerView::Granulating(state) => state.played(project, dst, slice, gain),
        }
    }

    /// The sampler once a frame of `secs` has ended.
    pub open spec fn ended(self, project: Project, secs: int) -> SamplerView {
        match self {
            SamplerView::Basic(state) => SamplerView::Basic(state.advanced(project, secs)),
            SamplerView::Granulating(state) => SamplerView::Granulating(state.ended(project, secs)),
        }
    }

    /// The sampler has nothing more to play: plain playback without a loop
    /// has run off its sample, forwards past the end or backwards past the
    /// start. Granular playback never ends by itself.
    pub open spec fn finished_spec(self, project: Project) -> bool {
        match self {
            SamplerView::Basic(state) => {
                &&& state.this_loop_spec(project) is Off
                &&& if state.position.reversing {
                    state.position.at <= 0
                } else {
                    state.position.at >= project.samples@[state.sample as int].duration()
                }
            },
            SamplerView::Granulating(state) => false,
        }
    }

    /// Whether there is a next loop to go on to.
    pub open spec fn has_next_loop(self, project: Project) -> bool {
        match self {
            SamplerView::Basic(state) => state.curr_loop + 1 < state.def(project).loops@.len(),
            SamplerView::Granulating(state) => false,
        }
    }

    /// The sampler in its next loop.
    pub open spec fn in_next_loop(self) -> SamplerView {
        match self {
            SamplerView::Basic(state) => SamplerView::Basic(
                BasicSamplerState { curr_loop: (state.curr_loop + 1) as usize, ..state },
            ),
            SamplerView::Granulating(state) => self,
        }
    }
}

impl SamplerState {
    /// Begins a frame of `secs`.
    pub fn begin(&mut self, project: &Project, secs: i64)
        requires
            old(self)@.wf(*project),
        ensures
            final(self)@ == old(self)@.begun(*project, secs as int),
            final(self)@.wf(*project),
    {
        match self {
            SamplerState::Basic(_) => {},
            SamplerState::Granulating(state) => {
                state.begin(project, secs);
            },
        }
    }

    /// Plays the time of the window `slice` into it and leaves the sampler
    /// as it is.
    pub fn play(&self, project: &Project, out: &mut Vec<i32>, slice: AudioBufferSlice, gain: i32)
        requires
            project.wf(),
            self@.wf(*project),
            slice.fits(old(out)@.len() as int),
        ensures
            final(out)@ == self@.played(*project, old(out)@, slice, gain as int),
            final(out)@.len() == old(out)@.len(),
    {
        match self {
            SamplerState::Basic(state) => {
                state.play(project, out, slice, gain);
            },
            SamplerState::Granulating(state) => {
                state.play(project, out, slice, gain);
            },
        }
    }

    /// Ends a frame of `secs`.
    pub fn end(&mut self, project: &Project, secs: i64)
        requires
            project.wf(),
            old(self)@.wf(*project),
        ensures
            final(self)@ == old(self)@.ended(*project, secs as int),
            final(self)@.wf(*project),
    {
        match self {
            SamplerState::Basic(state) => {
                state.advance(project, secs);
            },
            SamplerState::Granulating(state) => {
                state.end(project, secs);
            },
        }
    }

    /// Renders one frame into the window `slice` of `out` and moves on by
    /// the time of the window.
    pub fn render(&mut self, project: &Project, out: &mut Vec<i32>, slice: AudioBufferSlice, gain: i32)
        requires
            project.wf(),
            old(self)@.wf(*project),
            slice.fits(old(out)@.len() as int),
        ensures
            final(out)@.len() == old(out)@.len(),
            final(out)@ == old(self)@.begun(
                *project,
                secs_of(slice.end - slice.start, slice.rate as int),
            ).played(*project, old(out)@, slice, gain as int),
            final(self)@ == old(self)@.begun(
                *project,
                secs_of(slice.end - slice.start, slice.rate as int),
            ).ended(*project, secs_of(slice.end - slice.start, slice.rate as int)),
            final(self)@.wf(*project),
    {
        let secs: i64 = slice.len_secs();
        self.begin(project, secs);
        self.play(project, out, slice, gain);
        self.end(project, secs);
    }

    /// Whether the sampler has nothing more to play.
    pub fn finished(&self, project: &Project) -> (r: bool)
        requires
            self@.wf(*project),
        ensures
            r == self@.finished_spec(*project),
    {
        match self {
            SamplerState::Basic(state) => {
                match state.this_loop(project) {
                    LoopDef::Off => {
                        if state.position.reversing {
                            state.position.at <= 0
                        } else {
                            state.position.at >= project.samples[state.sample].length()
                        }
                    },
                    _ => false,
                }
            },
            SamplerState::Granulating(_) => false,
        }
    }

    /// Goes on to the next loop. Where there is none, nothing changes and
    /// the result is `false`: the voice is to be cut.
    pub fn next_loop(&mut self, project: &Project) -> (r: bool)
        requires
            old(self)@.wf(*project),
        ensures
            r == old(self)@.has_next_loop(*project),
            r ==> final(self)@ == old(self)@.in_next_loop(),
            !r ==> final(self)@ == old(self)@,
            final(self)@.wf(*project),
    {
        match self {
            SamplerState::Basic(state) => state.next_loop(project),
            SamplerState::Granulating(state) => state.next_loop(),
        }
    }
}

impl InstrumentMode {
    /// A sampler for the instrument `instrument` of `project`, whose mode
    /// this is, at the start of `sample`.
    pub fn new_sampler(&self, project: &Project, instrument: usize, sample: usize) -> (r:
        SamplerState)
        requires
            instrument < project.instruments@.len(),
            project.instruments@[instrument as int].mode == *self,
        ensures
            r@ == new_sampler_spec(*project, instrument, sample),
    {
        match self {
            InstrumentMode::Basic(_) => SamplerState::Basic(
                BasicSamplerState::new(project, instrument, sample),
            ),
            InstrumentMode::Granulating(_) => SamplerState::Granulating(
                GranulatingSamplerState::new(instrument, sample),
            ),
        }
    }
}

/// The sampler that a note on `instrument` starts with: plain playback at the
/// start of the mode, in its first loop; or granular playback without
/// granules.
pub open spec fn new_sampler_spec(project: Project, instrument: usize, sample: usize) -> SamplerView {
    match project.instruments@[instrument as int].mode {
        InstrumentMode::Basic(def) => SamplerView::Basic(
            BasicSamplerState {
                instrument,
                sample,
                position: Position { at: def.start, reversing: false },
                curr_loop: 0,
            },
        ),
        InstrumentMode::Granulating(_) => SamplerView::Granulating(
            GranulatingSamplerView { instrument, sample, granules: Seq::empty(), age: 0 },
        ),
    }
}

/// Time composes for plain playback: for a playhead that moves towards its
/// stop, moving on by one time and then by another leads where moving on by
/// the two times in one leads.
pub proof fn lemma_advance_composes(
    state: BasicSamplerState,
    project: Project,
    first: int,
    second: int,
)
    requires
        project.wf(),
        state.wf(project),
        state.this_loop_spec(project).heads_for_stop(state.position),
        0 <= first,
        0 <= second,
        first + second <= i64::MAX,
    ensures
        state.advanced(project, first).advanced(project, second) == state.advanced(
            project,
            first + second,
        ),
{
    lemma_loop_wf(project, state.instrument as int, state.curr_loop as int);
    state.this_loop_spec(project).lemma_advance_adds(state.position, first, second);
}

/// In a well-formed project every loop of a plain instrument is well formed,
/// and so is the absence of a loop.
pub proof fn lemma_loop_wf(project: Project, instrument: int, curr_loop: int)
    requires
        project.wf(),
        0 <= instrument < project.instruments@.len(),
        project.instruments@[instrument].mode is Basic,
    ensures
        0 <= curr_loop < project.instruments@[instrument].mode->Basic_0.loops@.len()
            ==> project.instruments@[instrument].mode->Basic_0.loops@[curr_loop].wf(),
        LoopDef::Off.wf(),
{
    assert(project.instruments@[instrument].wf(project.samples@.len() as int));
}

} // verus!
