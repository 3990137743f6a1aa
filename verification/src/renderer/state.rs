//! The state of a whole rendering: the track that plays, the patterns of it
//! that are under way, and the clock.

use vstd::prelude::*;
use crate::common::pattern::PatternRef;
use crate::common::project::Project;
use crate::fixed::{clamp_i64, sat64, secs_of};
use crate::renderer::headroom::{lemma_render_within, render_gains, unit_samples, within_both};
use crate::renderer::pattern::{PatternState, PatternView};
use crate::stream::{AudioBuffer, AudioBufferSlice, Stereo, StereoSource};

verus! {

/// The state of a rendering of one project.
pub struct RenderState {
    pub data: Project,
    pub curr_track: Option<usize>,
    pub pattern_states: Vec<PatternState>,
    pub position: i64,
}

/// The state of a rendering as a value, without the project.
pub struct RenderView {
    pub curr_track: Option<usize>,
    pub pattern_states: Seq<PatternView>,
    pub position: i64,
}

/// Pattern walkers as values.
pub open spec fn states_view(states: Seq<PatternState>) -> Seq<PatternView> {
    Seq::new(states.len(), |i: int| states[i]@)
}

impl View for RenderState {
    type V = RenderView;

    open spec fn view(&self) -> RenderView {
        RenderView {
            curr_track: self.curr_track,
            pattern_states: states_view(self.pattern_states@),
            position: self.position,
        }
    }
}

/// The walkers after each has rendered a frame over the window `slice`,
/// without those whose patterns have ended then.
pub open spec fn states_stepped(project: Project, states: Seq<PatternView>, slice: AudioBufferSlice) -> Seq<
    PatternView,
>
    decreases states.len(),
{
    if states.len() == 0 {
        Seq::empty()
    } else {
        let rest = states_stepped(project, states.drop_last(), slice);
        let last = states.last().rendered(project, slice);
        if last.ended(project) {
            rest
        } else {
            rest.push(last)
        }
    }
}

/// The output after the walkers have each rendered a frame over the window
/// `slice`, in their order.
pub open spec fn states_mixed(
    project: Project,
    states: Seq<PatternView>,
    out: Stereo,
    slice: AudioBufferSlice,
) -> Stereo
    decreases states.len(),
{
    if states.len() == 0 {
        out
    } else {
        states_mixed(project, states.drop_first(), states[0].mixed(project, out, slice), slice)
    }
}

/// A walker at the start of its pattern for each of `refs` whose time lies
/// from `lo` to `hi`, in their order.
pub open spec fn entering(project: Project, refs: Seq<PatternRef>, lo: int, hi: int) -> Seq<
    PatternView,
>
    decreases refs.len(),
{
    if refs.len() == 0 {
        Seq::empty()
    } else {
        let rest = entering(project, refs.drop_last(), lo, hi);
        if lo <= refs.last().position <= hi {
            rest.push(PatternView::started(project, refs.last().pattern))
        } else {
            rest
        }
    }
}

/// Silence: `len` samples of zero.
pub open spec fn silence(len: nat) -> Seq<i32> {
    Seq::new(len, |i: int| 0i32)
}

impl RenderView {
    /// The track exists and every walker is well formed.
    pub open spec fn wf(self, project: Project) -> bool {
        &&& project.wf()
        &&& self.curr_track is Some ==> self.curr_track->Some_0 < project.tracks@.len()
        &&& forall|i: int|
            0 <= i < self.pattern_states.len() ==> (#[trigger] self.pattern_states[i]).wf(project)
    }

    /// The state in which the track `which` starts: the clock at zero, and
    /// a walker for each pattern of the track that starts at time zero.
    pub open spec fn on_track(project: Project, which: usize) -> RenderView {
        RenderView {
            curr_track: Some(which),
            pattern_states: entering(project, project.tracks@[which as int].pattern_refs@, 0, 0),
            position: 0,
        }
    }

    /// This state after the track `which` has been started: the same
    /// whatever this state is.
    pub open spec fn with_track(self, project: Project, which: usize) -> RenderView {
        RenderView::on_track(project, which)
    }

    /// The state without a track.
    pub open spec fn stopped(self) -> RenderView {
        RenderView { curr_track: None, ..self }
    }

    /// The state after one block has been rendered into buffers of `len`
    /// samples at `rate`. Without a track nothing changes. Else every walker
    /// has rendered the block, those whose patterns have ended are gone, the
    /// clock has moved on by the time of the block, and the patterns of the
    /// track whose time the clock has reached on the way have a walker each.
    pub open spec fn rendered(self, project: Project, left: AudioBuffer, right: AudioBuffer) -> RenderView {
        match self.curr_track {
            None => self,
            Some(track) => {
                let position = sat64(
                    self.position + secs_of(left.out@.len() as int, left.rate as int),
                );
                RenderView {
                    curr_track: self.curr_track,
                    pattern_states: states_stepped(
                        project,
                        self.pattern_states,
                        left.whole(),
                    ).add(
                        entering(
                            project,
                            project.tracks@[track as int].pattern_refs@,
                            self.position + 1,
                            position,
                        ),
                    ),
                    position: position as i64,
                }
            },
        }
    }

    /// What the two sides hold after one block has been rendered: silence
    /// without a track, else what the walkers have mixed into silence.
    pub open spec fn rendered_out(self, project: Project, left: AudioBuffer, right: AudioBuffer) -> Stereo {
        let quiet = Stereo { left: silence(left.out@.len()), right: silence(right.out@.len()) };
        match self.curr_track {
            None => quiet,
            Some(_) => states_mixed(project, self.pattern_states, quiet, left.whole()),
        }
    }
}

impl RenderState {
    /// The project, the track and the walkers are well formed.
    pub open spec fn wf(self) -> bool {
        self@.wf(self.data)
    }

    /// A state without a track, at time zero.
    pub fn new(data: Project) -> (r: Self)
        requires
            data.wf(),
        ensures
            r.data == data,
            r@ == (RenderView { curr_track: None, pattern_states: Seq::empty(), position: 0 }),
            r.wf(),
    {
        let r = RenderState { data, curr_track: None, pattern_states: Vec::new(), position: 0 };
        assert(r@.pattern_states =~= Seq::empty());
        r
    }

    /// A state without a track for a project that is well formed; nothing
    /// for one that is not.
    pub fn load(data: Project) -> (r: Option<Self>)
        ensures
            r is Some <==> data.wf(),
            r is Some ==> r->Some_0.data == data && r->Some_0.wf() && r->Some_0@ == (RenderView {
                curr_track: None,
                pattern_states: Seq::empty(),
                position: 0,
            }),
    {
        if data.validate() {
            Some(RenderState::new(data))
        } else {
            None
        }
    }

    /// Adds a walker at the start of its pattern for each pattern of the
    /// current track whose time lies from `lo` to `hi`.
    fn enter_patterns(&mut self, lo: i64, hi: i64)
        requires
            old(self).wf(),
        ensures
            final(self).data == old(self).data,
            final(self).wf(),
            final(self)@ == (RenderView {
                pattern_states: old(self)@.pattern_states.add(
                    match old(self).curr_track {
                        None => Seq::empty(),
                        Some(track) => entering(
                            old(self).data,
                            old(self).data.tracks@[track as int].pattern_refs@,
                            lo as int,
                            hi as int,
                        ),
                    },
                ),
                ..old(self)@
            }),
    {
        match self.curr_track {
            None => {
                assert(self@.pattern_states =~= old(self)@.pattern_states.add(Seq::empty()));
            },
            Some(track) => {
                let ghost refs = self.data.tracks@[track as int].pattern_refs@;
                let n: usize = self.data.tracks[track].pattern_refs.len();
                let mut i: usize = 0;
                assert(refs.subrange(0, 0) =~= Seq::empty());
                assert(self@.pattern_states =~= old(self)@.pattern_states.add(Seq::empty()));
                while i < n
                    invariant
                        i <= n,
                        n == refs.len(),
                        self.data == old(self).data,
                        self.curr_track == old(self).curr_track,
                        self.curr_track == Some(track),
                        self.position == old(self).position,
                        refs == self.data.tracks@[track as int].pattern_refs@,
                        self.wf(),
                        self@.pattern_states == old(self)@.pattern_states.add(
                            entering(self.data, refs.subrange(0, i as int), lo as int, hi as int),
                        ),
                    decreases n - i,
                {
                    let pref: PatternRef = self.data.tracks[track].pattern_refs[i];
                    let ghost before = self@.pattern_states;
                    assert(refs.subrange(0, i + 1).drop_last() =~= refs.subrange(0, i as int));
                    assert(self.data.tracks@[track as int].wf(self.data.patterns@.len() as int));
                    if lo <= pref.position && pref.position <= hi {
                        self.add_pattern_state(pref.pattern);
                    }
                    i = i + 1;
                    assert(self@.pattern_states =~= old(self)@.pattern_states.add(
                        entering(self.data, refs.subrange(0, i as int), lo as int, hi as int),
                    ));
                }
                assert(refs.subrange(0, n as int) =~= refs);
            },
        }
    }

    /// Adds a walker for every pattern of the current track that starts at
    /// time zero.
    fn initialize_pattern_states(&mut self)
        requires
            old(self).wf(),
        ensures
            final(self).data == old(self).data,
            final(self).wf(),
            final(self)@ == (RenderView {
                pattern_states: old(self)@.pattern_states.add(
                    match old(self).curr_track {
                        None => Seq::empty(),
                        Some(track) => entering(
                            old(self).data,
                            old(self).data.tracks@[track as int].pattern_refs@,
                            0,
                            0,
                        ),
                    },
                ),
                ..old(self)@
            }),
    {
        self.enter_patterns(0, 0);
    }

    /// Adds a walker at the start of the pattern `pattern`.
    fn add_pattern_state(&mut self, pattern: usize)
        requires
            old(self).wf(),
            pattern < old(self).data.patterns@.len(),
        ensures
            final(self).data == old(self).data,
            final(self).wf(),
            final(self)@ == (RenderView {
                pattern_states: old(self)@.pattern_states.push(
                    PatternView::started(old(self).data, pattern),
                ),
                ..old(self)@
            }),
    {
        let state = PatternState::new(&self.data, pattern);
        self.pattern_states.push(state);
        assert(self@.pattern_states =~= old(self)@.pattern_states.push(
            PatternView::started(old(self).data, pattern),
        ));
    }

    /// Starts the track `which` from its beginning.
    pub fn set_track(&mut self, which: usize)
        requires
            old(self).wf(),
            which < old(self).data.tracks@.len(),
        ensures
            final(self).data == old(self).data,
            final(self)@ == old(self)@.with_track(old(self).data, which),
            final(self).wf(),
    {
        self.curr_track = Some(which);
        self.position = 0;
        self.pattern_states = Vec::new();
        assert(self@.pattern_states =~= Seq::empty());
        self.initialize_pattern_states();
        assert(Seq::<PatternView>::empty().add(
            entering(self.data, self.data.tracks@[which as int].pattern_refs@, 0, 0),
        ) =~= entering(self.data, self.data.tracks@[which as int].pattern_refs@, 0, 0));
    }

    /// Leaves the track.
    pub fn stop(&mut self)
        ensures
            final(self).data == old(self).data,
            final(self)@ == old(self)@.stopped(),
            old(self).wf() ==> final(self).wf(),
    {
        self.curr_track = None;
    }

    /// Renders the next block into the two sides and moves the clock on by
    /// the time of the block. Both sides are silenced first; the rate and
    /// the resampler are those of the left side.
    pub fn render(&mut self, left_sink: &mut AudioBuffer, right_sink: &mut AudioBuffer)
        requires
            old(self).wf(),
            old(left_sink).out@.len() == old(right_sink).out@.len(),
        ensures
            final(self).data == old(self).data,
            final(self).wf(),
            final(self)@ == old(self)@.rendered(old(self).data, *old(left_sink), *old(right_sink)),
            (Stereo { left: final(left_sink).out@, right: final(right_sink).out@ }) == old(
                self,
            )@.rendered_out(old(self).data, *old(left_sink), *old(right_sink)),
            final(left_sink).out@.len() == old(left_sink).out@.len(),
            final(right_sink).out@.len() == old(right_sink).out@.len(),
            final(left_sink).rate == old(left_sink).rate,
            final(right_sink).rate == old(right_sink).rate,
            final(left_sink).resampler == old(left_sink).resampler,
            final(right_sink).resampler == old(right_sink).resampler,
            old(self).curr_track is None ==> final(self)@ == old(self)@ && final(left_sink).out@
                == silence(old(left_sink).out@.len()) && final(right_sink).out@ == silence(
                old(right_sink).out@.len(),
            ),
            unit_samples(old(self).data) ==> within_both(
                Stereo { left: final(left_sink).out@, right: final(right_sink).out@ },
                render_gains(old(self)@, old(self).data, *old(left_sink), *old(right_sink)),
            ),
    {
        proof {
            if unit_samples(self.data) {
                lemma_render_within(self@, self.data, *left_sink, *right_sink);
            }
        }
        left_sink.clear();
        right_sink.clear();
        if self.curr_track.is_none() {
            return ;
        }
        let slice: AudioBufferSlice = left_sink.ref_buf();
        let ghost orig = old(self)@.pattern_states;
        let ghost goal = states_mixed(
            self.data,
            orig,
            Stereo { left: left_sink.out@, right: right_sink.out@ },
            slice,
        );
        let ghost mut done: int = 0;
        let mut i: usize = 0;
        proof {
            assert(orig.subrange(0, 0) =~= Seq::<PatternView>::empty());
            assert(orig.subrange(0, orig.len() as int) =~= orig);
            assert(self@.pattern_states =~= Seq::<PatternView>::empty().add(orig));
        }
        while i < self.pattern_states.len()
            invariant
                0 <= done <= orig.len(),
                i <= self.pattern_states@.len(),
                self.wf(),
                self.data == old(self).data,
                self.curr_track == old(self).curr_track,
                self.position == old(self).position,
                slice == old(left_sink).whole(),
                slice.fits(left_sink.out@.len() as int),
                slice.fits(right_sink.out@.len() as int),
                left_sink.out@.len() == old(left_sink).out@.len(),
                right_sink.out@.len() == old(right_sink).out@.len(),
                left_sink.rate == old(left_sink).rate,
                right_sink.rate == old(right_sink).rate,
                left_sink.resampler == old(left_sink).resampler,
                right_sink.resampler == old(right_sink).resampler,
                i == states_stepped(self.data, orig.subrange(0, done), slice).len(),
                self@.pattern_states == states_stepped(self.data, orig.subrange(0, done), slice).add(
                    orig.subrange(done, orig.len() as int),
                ),
                states_mixed(
                    self.data,
                    orig.subrange(done, orig.len() as int),
                    Stereo { left: left_sink.out@, right: right_sink.out@ },
                    slice,
                ) == goal,
            decreases orig.len() - done,
        {
            let ghost before = self@.pattern_states;
            let ghost kept = states_stepped(self.data, orig.subrange(0, done), slice);
            proof {
                assert(before[i as int] == orig[done]);
                assert(orig.subrange(0, done + 1).drop_last() =~= orig.subrange(0, done));
                assert(orig.subrange(done, orig.len() as int).drop_first() =~= orig.subrange(
                    done + 1,
                    orig.len() as int,
                ));
            }
            let ended: bool = self.pattern_states[i].render(
                &self.data,
                &mut left_sink.out,
                &mut right_sink.out,
                slice,
            );
            let ghost stepped = self@.pattern_states;
            assert(stepped =~= before.update(i as int, orig[done].rendered(self.data, slice)));
            if ended {
                self.pattern_states.remove(i);
                assert(self@.pattern_states =~= stepped.remove(i as int));
                assert(self@.pattern_states =~= kept.add(orig.subrange(done + 1, orig.len() as int)));
                assert forall|j: int| 0 <= j < self@.pattern_states.len() implies (
                #[trigger] self@.pattern_states[j]).wf(self.data) by {
                    if j < i {
                        assert(self@.pattern_states[j] == stepped[j]);
                    } else {
                        assert(self@.pattern_states[j] == stepped[j + 1]);
                    }
                }
            } else {
                assert(self@.pattern_states =~= kept.push(
                    orig[done].rendered(self.data, slice),
                ).add(orig.subrange(done + 1, orig.len() as int)));
                i = i + 1;
            }
            proof {
                done = done + 1;
            }
        }
        proof {
            assert(orig.subrange(0, done) =~= orig);
            assert(self@.pattern_states =~= states_stepped(self.data, orig, slice));
        }
        let from: i64 = self.position;
        let length: i64 = left_sink.len();
        self.position = clamp_i64(from as i128 + length as i128);
        if from < i64::MAX {
            self.enter_patterns(from + 1, self.position);
        } else {
            proof {
                lemma_none_entering(
                    self.data,
                    self.data.tracks@[self.curr_track->Some_0 as int].pattern_refs@,
                    from + 1,
                    self.position as int,
                );
                assert(self@.pattern_states =~= self@.pattern_states.add(Seq::empty()));
            }
        }
    }
}

/// No time lies in an empty range, so no pattern enters.
pub proof fn lemma_none_entering(project: Project, refs: Seq<PatternRef>, lo: int, hi: int)
    requires
        hi < lo,
    ensures
        entering(project, refs, lo, hi) == Seq::<PatternView>::empty(),
    decreases refs.len(),
{
    if refs.len() > 0 {
        lemma_none_entering(project, refs.drop_last(), lo, hi);
    }
}

impl StereoSource for RenderState {
    open spec fn ready(&self) -> bool {
        self.wf()
    }

    /// Renders the next block as [`RenderState::render`] does: the state
    /// and the two sides come out as it leaves them.
    fn render(&mut self, left_sink: &mut AudioBuffer, right_sink: &mut AudioBuffer)
        ensures
            final(self).data == old(self).data,
            final(self)@ == old(self)@.rendered(old(self).data, *old(left_sink), *old(right_sink)),
            (Stereo { left: final(left_sink).out@, right: final(right_sink).out@ }) == old(
                self,
            )@.rendered_out(old(self).data, *old(left_sink), *old(right_sink)),
            final(left_sink).rate == old(left_sink).rate,
            final(right_sink).rate == old(right_sink).rate,
            final(left_sink).resampler == old(left_sink).resampler,
            final(right_sink).resampler == old(right_sink).resampler,
            old(self).curr_track is None ==> final(self)@ == old(self)@ && final(left_sink).out@
                == silence(old(left_sink).out@.len()) && final(right_sink).out@ == silence(
                old(right_sink).out@.len(),
            ),
            unit_samples(old(self).data) ==> within_both(
                Stereo { left: final(left_sink).out@, right: final(right_sink).out@ },
                render_gains(old(self)@, old(self).data, *old(left_sink), *old(right_sink)),
            ),
    {
        RenderState::render(self, left_sink, right_sink);
    }
}

/// Starting a track, leaving it and starting it again gives the state that
/// starting it once gives, whatever the state was before.
pub proof fn lemma_restart_is_start(before: RenderView, project: Project, which: usize)
    ensures
        RenderView::on_track(project, which) == RenderView::on_track(project, which).stopped().with_track(
            project,
            which,
        ),
        before.with_track(project, which) == RenderView::on_track(project, which),
{
}

} // verus!
