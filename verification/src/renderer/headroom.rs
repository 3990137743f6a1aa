//! How loud the output can get: beside every mix stands the sum of the gains
//! that went into each sample, and no sample leaves it while the samples of
//! the project stay within the unit level.

use vstd::prelude::*;
use crate::common::instrument::GranulatingMode;
use crate::common::position::{Position, Subseg};
use crate::common::project::Project;
use crate::common::sample::Sample;
use crate::fixed::{abs_int, clamp_int, sat64, samples_before, samples_in, secs_of, ONE};
use crate::renderer::channel::ChannelView;
use crate::renderer::pattern::{cell_obeyed, slot_mixed, PatternView};
use crate::renderer::samplers::{
    granules_played,
    plan_spec,
    segs_mixed,
    subseg_mixed,
    GranuleState,
    SamplerView,
};
use crate::renderer::state::{silence, states_mixed, RenderView};
use crate::resample::{lemma_scale_bound, window, Resampler};
use crate::stream::{AudioBuffer, AudioBufferSlice, Stereo};

verus! {

/// For each sample of the two sides, the sum of the gains of what has been
/// mixed into it.
pub struct Gains {
    pub left: Seq<int>,
    pub right: Seq<int>,
}

/// Every value of `audio` lies within the unit level.
pub open spec fn unit(audio: Seq<i32>) -> bool {
    forall|i: int| 0 <= i < audio.len() ==> -ONE <= #[trigger] audio[i] <= ONE
}

/// Every sample of the project lies within the unit level.
pub open spec fn unit_samples(project: Project) -> bool {
    forall|s: int| 0 <= s < project.samples@.len() ==> unit(#[trigger] project.samples@[s].audio@)
}

/// No value of `out` is larger, either way, than the gains beside it.
pub open spec fn within(out: Seq<i32>, gains: Seq<int>) -> bool {
    &&& out.len() == gains.len()
    &&& forall|k: int| 0 <= k < out.len() ==> abs_int(#[trigger] out[k] as int) <= gains[k]
}

/// On both sides, no value of `out` is larger than the gains beside it.
pub open spec fn within_both(out: Stereo, gains: Gains) -> bool {
    within(out.left, gains.left) && within(out.right, gains.right)
}

/// `gains` with the size of `gain` added for the samples `lo..hi`.
pub open spec fn raised(gains: Seq<int>, lo: int, hi: int, gain: int) -> Seq<int> {
    Seq::new(
        gains.len(),
        |k: int|
            if lo <= k < hi {
                gains[k] + abs_int(gain)
            } else {
                gains[k]
            },
    )
}

/// The gains after the run `seg` has been mixed in at `gain`: raised where
/// the run writes, if it reads anything.
pub open spec fn subseg_gains(
    sample: Sample,
    seg: Subseg,
    offs: int,
    gains: Seq<int>,
    slice: AudioBufferSlice,
    gain: int,
) -> Seq<int> {
    let plan = plan_spec(sample, seg, offs, slice);
    if plan.src_from < plan.src_to {
        raised(gains, plan.dst_from as int, plan.dst_to as int, gain)
    } else {
        gains
    }
}

/// The gains after the runs `segs[k..]` have been mixed in.
pub open spec fn segs_gains(
    sample: Sample,
    segs: Seq<Subseg>,
    k: int,
    offs: int,
    gains: Seq<int>,
    slice: AudioBufferSlice,
    gain: int,
) -> Seq<int>
    decreases segs.len() - k,
{
    if k < 0 || k >= segs.len() {
        gains
    } else {
        segs_gains(
            sample,
            segs,
            k + 1,
            sat64(offs + segs[k].length),
            subseg_gains(sample, segs[k], offs, gains, slice, gain),
            slice,
            gain,
        )
    }
}

/// The run that a granule plays in a frame of `secs`.
pub open spec fn granule_run(granule: GranuleState, secs: int) -> Subseg {
    Subseg { length: secs as i64, from: Position { at: granule.at, reversing: false } }
}

/// The gains after the granules `granules[k..]` have played.
pub open spec fn granules_gains(
    sample: Sample,
    def: GranulatingMode,
    granules: Seq<GranuleState>,
    k: int,
    secs: int,
    gains: Seq<int>,
    slice: AudioBufferSlice,
    gain: int,
) -> Seq<int>
    decreases granules.len() - k,
{
    if k < 0 || k >= granules.len() {
        gains
    } else {
        granules_gains(
            sample,
            def,
            granules,
            k + 1,
            secs,
            subseg_gains(
                sample,
                granule_run(granules[k], secs),
                0,
                gains,
                slice,
                granules[k].gain_spec(def, gain),
            ),
            slice,
            gain,
        )
    }
}

/// The gains after a sampler has played into the window `slice` at `gain`.
pub open spec fn sampler_gains(
    sampler: SamplerView,
    project: Project,
    gains: Seq<int>,
    slice: AudioBufferSlice,
    gain: int,
) -> Seq<int> {
    match sampler {
        SamplerView::Basic(state) => if state.sample < project.samples@.len() {
            segs_gains(
                project.samples@[state.sample as int],
                state.runs(project, slice),
                0,
                0,
                gains,
                slice,
                gain,
            )
        } else {
            gains
        },
        SamplerView::Granulating(state) => if state.sample < project.samples@.len() {
            granules_gains(
                project.samples@[state.sample as int],
                state.def(project),
                state.granules,
                0,
                secs_of(slice.end - slice.start, slice.rate as int),
                gains,
                slice,
                gain,
            )
        } else {
            gains
        },
    }
}

/// The gains of one side after a voice has rendered a frame over the window
/// `slice`.
pub open spec fn channel_gains(
    channel: ChannelView,
    project: Project,
    gains: Seq<int>,
    slice: AudioBufferSlice,
    right: bool,
) -> Seq<int> {
    if channel.paused {
        gains
    } else {
        let dt = secs_of(slice.end - slice.start, slice.rate as int);
        let tuned = channel.tuned(dt);
        let secs = tuned.played_secs(project, slice);
        sampler_gains(
            tuned.sampler.begun(project, secs),
            project,
            gains,
            tuned.pitched(project, slice),
            if right {
                tuned.gain_right()
            } else {
                tuned.gain_left()
            },
        )
    }
}

/// The gains after the voice in a slot has rendered a frame over the window
/// `slice`.
pub open spec fn slot_gains(
    slot: Option<ChannelView>,
    project: Project,
    gains: Gains,
    slice: AudioBufferSlice,
) -> Gains {
    match slot {
        None => gains,
        Some(channel) => Gains {
            left: channel_gains(channel, project, gains.left, slice, false),
            right: channel_gains(channel, project, gains.right, slice, true),
        },
    }
}

/// The gains after the slots `i..` of a walker have each obeyed their
/// instruction of the current row and rendered a frame.
pub open spec fn row_gains(
    walker: PatternView,
    project: Project,
    i: int,
    gains: Gains,
    slice: AudioBufferSlice,
) -> Gains
    decreases walker.channels.len() - i,
{
    if i < 0 || i >= walker.channels.len() {
        gains
    } else {
        row_gains(
            walker,
            project,
            i + 1,
            slot_gains(
                cell_obeyed(walker.channels[i], walker.cell(project, i), project),
                project,
                gains,
                slice,
            ),
            slice,
        )
    }
}

/// The gains after the pieces `segs[k..]` of a frame have been rendered.
pub open spec fn rows_gains(
    walker: PatternView,
    project: Project,
    segs: Seq<i64>,
    k: int,
    start: int,
    gains: Gains,
    slice: AudioBufferSlice,
) -> Gains
    decreases segs.len() - k,
{
    if k < 0 || k >= segs.len() {
        gains
    } else {
        let end = sat64(start + segs[k]);
        let part = slice.sub_spec(start, end);
        rows_gains(
            walker.entered(k).row_stepped(project, part),
            project,
            segs,
            k + 1,
            end,
            row_gains(walker.entered(k), project, 0, gains, part),
            slice,
        )
    }
}

/// The gains after a walker has rendered a frame over the window `slice`.
pub open spec fn pattern_gains(
    walker: PatternView,
    project: Project,
    gains: Gains,
    slice: AudioBufferSlice,
) -> Gains {
    if !walker.runs(project) {
        gains
    } else {
        rows_gains(
            walker,
            project,
            walker.subsegs_spec(project, secs_of(slice.end - slice.start, slice.rate as int)),
            0,
            0,
            gains,
            slice,
        )
    }
}

/// The gains after the walkers have each rendered a frame over the window
/// `slice`.
pub open spec fn states_gains(
    project: Project,
    states: Seq<PatternView>,
    gains: Gains,
    slice: AudioBufferSlice,
) -> Gains
    decreases states.len(),
{
    if states.len() == 0 {
        gains
    } else {
        states_gains(
            project,
            states.drop_first(),
            pattern_gains(states[0], project, gains, slice),
            slice,
        )
    }
}

/// No gains: `len` times zero.
pub open spec fn no_gains(len: nat) -> Seq<int> {
    Seq::new(len, |i: int| 0int)
}

/// For each sample of a block, the sum of the gains of the voices that play
/// into it: for every voice and every row that it plays in, the gain of its
/// side over the samples that it writes (for a granular voice, the gain of
/// each granule).
pub open spec fn render_gains(
    view: RenderView,
    project: Project,
    left: AudioBuffer,
    right: AudioBuffer,
) -> Gains {
    let none = Gains { left: no_gains(left.out@.len()), right: no_gains(right.out@.len()) };
    match view.curr_track {
        None => none,
        Some(_) => states_gains(project, view.pattern_states, none, left.whole()),
    }
}

/// A mix of a source within the unit level stays within the gains, raised by
/// its own.
pub proof fn lemma_mixed_within(
    resampler: Resampler,
    from: Seq<i32>,
    dst: Seq<i32>,
    gains: Seq<int>,
    lo: int,
    hi: int,
    gain: int,
)
    requires
        unit(from),
        from.len() > 0,
        within(dst, gains),
    ensures
        within(resampler.mixed(from, dst, lo, hi, gain), raised(gains, lo, hi, gain)),
{
    let mixed = resampler.mixed(from, dst, lo, hi, gain);
    assert forall|k: int| 0 <= k < mixed.len() implies abs_int(#[trigger] mixed[k] as int) <= raised(
        gains,
        lo,
        hi,
        gain,
    )[k] by {
        assert(abs_int(dst[k] as int) <= gains[k]);
        if lo <= k < hi {
            resampler.lemma_interpolate_bound(from, k - lo, hi - lo);
            lemma_scale_bound(resampler.interpolate_spec(from, k - lo, hi - lo), gain);
        }
    }
}

/// The index of a time is never negative.
pub proof fn lemma_samples_not_negative(t: int, rate: int)
    ensures
        samples_in(t, rate) >= 0,
        samples_before(t, rate) >= 0,
{
    if t > 0 && rate > 0 {
        assert((t * rate) / 705_600_000 >= 0 && (t * rate + 705_600_000 - 1) / 705_600_000 >= 0)
            by (nonlinear_arith)
            requires
                t > 0,
                rate > 0,
        ;
    }
}

/// One run of a sample within the unit level stays within the gains.
pub proof fn lemma_subseg_within(
    sample: Sample,
    seg: Subseg,
    offs: int,
    dst: Seq<i32>,
    gains: Seq<int>,
    slice: AudioBufferSlice,
    gain: int,
)
    requires
        unit(sample.audio@),
        within(dst, gains),
    ensures
        within(
            subseg_mixed(sample, seg, offs, dst, slice, gain),
            subseg_gains(sample, seg, offs, gains, slice, gain),
        ),
{
    let plan = plan_spec(sample, seg, offs, slice);
    let a = plan.src_from as int;
    let b = plan.src_to as int;
    let from = window(sample.audio@, a, b, seg.from.reversing);
    let left = if seg.from.reversing {
        seg.from.at - seg.length
    } else {
        seg.from.at as int
    };
    let right = if seg.from.reversing {
        seg.from.at as int
    } else {
        seg.from.at + seg.length
    };
    lemma_samples_not_negative(clamp_int(left, 0, sample.duration()), sample.baserate as int);
    lemma_samples_not_negative(clamp_int(right, 0, sample.duration()), sample.baserate as int);
    assert(sample.audio.len() == sample.audio@.len());
    assert(0 <= a <= b <= sample.audio@.len());
    if a < b {
        assert forall|i: int| 0 <= i < from.len() implies -ONE <= #[trigger] from[i] <= ONE by {
            if seg.from.reversing {
                assert(from[i] == sample.audio@[b - 1 - i]);
            } else {
                assert(from[i] == sample.audio@[a + i]);
            }
        }
        lemma_mixed_within(
            slice.resampler,
            from,
            dst,
            gains,
            plan.dst_from as int,
            plan.dst_to as int,
            gain,
        );
    } else {
        assert(from.len() == 0);
    }
}

/// The runs of a sample within the unit level stay within the gains.
pub proof fn lemma_segs_within(
    sample: Sample,
    segs: Seq<Subseg>,
    k: int,
    offs: int,
    dst: Seq<i32>,
    gains: Seq<int>,
    slice: AudioBufferSlice,
    gain: int,
)
    requires
        unit(sample.audio@),
        within(dst, gains),
    ensures
        within(
            segs_mixed(sample, segs, k, offs, dst, slice, gain),
            segs_gains(sample, segs, k, offs, gains, slice, gain),
        ),
    decreases segs.len() - k,
{
    if 0 <= k < segs.len() {
        lemma_subseg_within(sample, segs[k], offs, dst, gains, slice, gain);
        lemma_segs_within(
            sample,
            segs,
            k + 1,
            sat64(offs + segs[k].length),
            subseg_mixed(sample, segs[k], offs, dst, slice, gain),
            subseg_gains(sample, segs[k], offs, gains, slice, gain),
            slice,
            gain,
        );
    }
}

/// The granules of a sample within the unit level stay within the gains.
pub proof fn lemma_granules_within(
    sample: Sample,
    def: GranulatingMode,
    granules: Seq<GranuleState>,
    k: int,
    secs: int,
    dst: Seq<i32>,
    gains: Seq<int>,
    slice: AudioBufferSlice,
    gain: int,
)
    requires
        unit(sample.audio@),
        within(dst, gains),
    ensures
        within(
            granules_played(sample, def, granules, k, secs, dst, slice, gain),
            granules_gains(sample, def, granules, k, secs, gains, slice, gain),
        ),
    decreases granules.len() - k,
{
    if 0 <= k < granules.len() {
        let own = granules[k].gain_spec(def, gain);
        lemma_subseg_within(sample, granule_run(granules[k], secs), 0, dst, gains, slice, own);
        lemma_granules_within(
            sample,
            def,
            granules,
            k + 1,
            secs,
            granules[k].played(sample, def, secs, dst, slice, gain),
            subseg_gains(sample, granule_run(granules[k], secs), 0, gains, slice, own),
            slice,
            gain,
        );
    }
}

/// What a sampler plays stays within the gains.
pub proof fn lemma_sampler_within(
    sampler: SamplerView,
    project: Project,
    dst: Seq<i32>,
    gains: Seq<int>,
    slice: AudioBufferSlice,
    gain: int,
)
    requires
        unit_samples(project),
        within(dst, gains),
    ensures
        within(
            sampler.played(project, dst, slice, gain),
            sampler_gains(sampler, project, gains, slice, gain),
        ),
{
    match sampler {
        SamplerView::Basic(state) => {
            if state.sample < project.samples@.len() {
                lemma_segs_within(
                    project.samples@[state.sample as int],
                    state.runs(project, slice),
                    0,
                    0,
                    dst,
                    gains,
                    slice,
                    gain,
                );
            }
        },
        SamplerView::Granulating(state) => {
            if state.sample < project.samples@.len() {
                lemma_granules_within(
                    project.samples@[state.sample as int],
                    state.def(project),
                    state.granules,
                    0,
                    secs_of(slice.end - slice.start, slice.rate as int),
                    dst,
                    gains,
                    slice,
                    gain,
                );
            }
        },
    }
}

/// What a voice renders on one side stays within the gains.
pub proof fn lemma_channel_within(
    channel: ChannelView,
    project: Project,
    dst: Seq<i32>,
    gains: Seq<int>,
    slice: AudioBufferSlice,
    right: bool,
)
    requires
        unit_samples(project),
        within(dst, gains),
    ensures
        within(
            channel.rendered_side(project, dst, slice, right),
            channel_gains(channel, project, gains, slice, right),
        ),
{
    if !channel.paused {
        let dt = secs_of(slice.end - slice.start, slice.rate as int);
        let tuned = channel.tuned(dt);
        let secs = tuned.played_secs(project, slice);
        lemma_sampler_within(
            tuned.sampler.begun(project, secs),
            project,
            dst,
            gains,
            tuned.pitched(project, slice),
            if right {
                tuned.gain_right()
            } else {
                tuned.gain_left()
            },
        );
    }
}

/// What the voice in a slot renders stays within the gains.
pub proof fn lemma_slot_within(
    slot: Option<ChannelView>,
    project: Project,
    out: Stereo,
    gains: Gains,
    slice: AudioBufferSlice,
)
    requires
        unit_samples(project),
        within_both(out, gains),
    ensures
        within_both(slot_mixed(slot, project, out, slice), slot_gains(slot, project, gains, slice)),
{
    match slot {
        None => {},
        Some(channel) => {
            lemma_channel_within(channel, project, out.left, gains.left, slice, false);
            lemma_channel_within(channel, project, out.right, gains.right, slice, true);
        },
    }
}

/// What the voices of a row render stays within the gains.
pub proof fn lemma_row_within(
    walker: PatternView,
    project: Project,
    i: int,
    out: Stereo,
    gains: Gains,
    slice: AudioBufferSlice,
)
    requires
        unit_samples(project),
        within_both(out, gains),
    ensures
        within_both(
            walker.row_mixed(project, i, out, slice),
            row_gains(walker, project, i, gains, slice),
        ),
    decreases walker.channels.len() - i,
{
    if 0 <= i < walker.channels.len() {
        let obeyed = cell_obeyed(walker.channels[i], walker.cell(project, i), project);
        lemma_slot_within(obeyed, project, out, gains, slice);
        lemma_row_within(
            walker,
            project,
            i + 1,
            slot_mixed(obeyed, project, out, slice),
            slot_gains(obeyed, project, gains, slice),
            slice,
        );
    }
}

/// What the rows of a frame render stays within the gains.
pub proof fn lemma_rows_within(
    walker: PatternView,
    project: Project,
    segs: Seq<i64>,
    k: int,
    start: int,
    out: Stereo,
    gains: Gains,
    slice: AudioBufferSlice,
)
    requires
        unit_samples(project),
        within_both(out, gains),
    ensures
        within_both(
            walker.rows_mixed(project, segs, k, start, out, slice),
            rows_gains(walker, project, segs, k, start, gains, slice),
        ),
    decreases segs.len() - k,
{
    if 0 <= k < segs.len() {
        let end = sat64(start + segs[k]);
        let part = slice.sub_spec(start, end);
        lemma_row_within(walker.entered(k), project, 0, out, gains, part);
        lemma_rows_within(
            walker.entered(k).row_stepped(project, part),
            project,
            segs,
            k + 1,
            end,
            walker.entered(k).row_mixed(project, 0, out, part),
            row_gains(walker.entered(k), project, 0, gains, part),
            slice,
        );
    }
}

/// What the walkers render stays within the gains.
pub proof fn lemma_states_within(
    project: Project,
    states: Seq<PatternView>,
    out: Stereo,
    gains: Gains,
    slice: AudioBufferSlice,
)
    requires
        unit_samples(project),
        within_both(out, gains),
    ensures
        within_both(
            states_mixed(project, states, out, slice),
            states_gains(project, states, gains, slice),
        ),
    decreases states.len(),
{
    if states.len() > 0 {
        let walker = states[0];
        if walker.runs(project) {
            lemma_rows_within(
                walker,
                project,
                walker.subsegs_spec(project, secs_of(slice.end - slice.start, slice.rate as int)),
                0,
                0,
                out,
                gains,
                slice,
            );
        }
        lemma_states_within(
            project,
            states.drop_first(),
            walker.mixed(project, out, slice),
            pattern_gains(walker, project, gains, slice),
            slice,
        );
    }
}

/// While the samples of the project stay within the unit level, no sample
/// of a rendered block is larger, either way, than the sum of the gains of
/// the voices that play into it.
pub proof fn lemma_render_within(
    view: RenderView,
    project: Project,
    left: AudioBuffer,
    right: AudioBuffer,
)
    requires
        unit_samples(project),
    ensures
        within_both(
            view.rendered_out(project, left, right),
            render_gains(view, project, left, right),
        ),
{
    let quiet = Stereo { left: silence(left.out@.len()), right: silence(right.out@.len()) };
    let none = Gains { left: no_gains(left.out@.len()), right: no_gains(right.out@.len()) };
    assert(within_both(quiet, none));
    match view.curr_track {
        None => {},
        Some(_) => {
            lemma_states_within(project, view.pattern_states, quiet, none, left.whole());
        },
    }
}

impl Project {
    /// Whether every sample lies within the unit level.
    pub fn has_unit_samples(&self) -> (r: bool)
        ensures
            r == unit_samples(*self),
    {
        let mut s: usize = 0;
        while s < self.samples.len()
            invariant
                s <= self.samples@.len(),
                forall|t: int| 0 <= t < s ==> unit(#[trigger] self.samples@[t].audio@),
            decreases self.samples@.len() - s,
        {
            let audio = &self.samples[s].audio;
            let mut i: usize = 0;
            while i < audio.len()
                invariant
                    i <= audio@.len(),
                    s < self.samples@.len(),
                    audio@ == self.samples@[s as int].audio@,
                    forall|k: int| 0 <= k < i ==> -ONE <= #[trigger] audio@[k] <= ONE,
                decreases audio@.len() - i,
            {
                if audio[i] < -ONE || audio[i] > ONE {
                    assert(!unit(self.samples@[s as int].audio@));
                    return false;
                }
                i = i + 1;
            }
            s = s + 1;
        }
        true
    }
}

} // verus!
