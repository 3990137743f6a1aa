//! Pattern walkers: the state of one playing pattern, which goes through
//! its rows, obeys their instructions and renders its voices.

use vstd::prelude::*;
use crate::common::pattern::{Instruction, Pattern};
use crate::common::project::Project;
use crate::fixed::{
    clamp_i64,
    lemma_product_bound,
    min_int,
    sat64,
    secs_of,
    ONE,
    TICKS_PER_SEC,
};
use crate::renderer::channel::{ChannelState, ChannelView, Fade};
use crate::stream::{AudioBufferSlice, Stereo};

verus! {

/// The state of one playing pattern.
pub struct PatternState {
    pub pattern: usize,
    pub row: usize,
    /// Rows per second, as a level.
    pub row_speed: i32,
    /// The part of the current row that has been played, as a level from
    /// zero to one.
    pub inner_position: i32,
    pub channels: Vec<Option<ChannelState>>,
}

/// A pattern walker as a value.
pub struct PatternView {
    pub pattern: usize,
    pub row: usize,
    pub row_speed: i32,
    pub inner_position: i32,
    pub channels: Seq<Option<ChannelView>>,
}

/// A slot as a value.
pub open spec fn slot_view(slot: Option<ChannelState>) -> Option<ChannelView> {
    match slot {
        Some(channel) => Some(channel@),
        None => None,
    }
}

/// Slots as values.
pub open spec fn slots_view(slots: Seq<Option<ChannelState>>) -> Seq<Option<ChannelView>> {
    Seq::new(slots.len(), |i: int| slot_view(slots[i]))
}

impl View for PatternState {
    type V = PatternView;

    open spec fn view(&self) -> PatternView {
        PatternView {
            pattern: self.pattern,
            row: self.row,
            row_speed: self.row_speed,
            inner_position: self.inner_position,
            channels: slots_view(self.channels@),
        }
    }
}

/// The time from the place `inner` in a row to the end of the row, at
/// `row_speed` rows per second: the least whole time in which the rest of
/// the row passes. A pattern without speed never gets there.
pub open spec fn to_next_row(inner: int, row_speed: int) -> int {
    if row_speed <= 0 {
        i64::MAX as int
    } else if inner >= ONE {
        0
    } else {
        ((ONE - inner) * TICKS_PER_SEC + row_speed - 1) / row_speed
    }
}

/// The part of a row that passes in the time `secs` at `row_speed` rows per
/// second, as a level.
pub open spec fn row_part(secs: int, row_speed: int) -> int {
    if secs <= 0 || row_speed <= 0 {
        0
    } else {
        (secs * row_speed) / (TICKS_PER_SEC as int)
    }
}

/// The pieces that `remaining` of time falls into, one for each row that it
/// touches, from the place `inner` in the row `row` on. The first piece
/// ends with its row, or with the time; each further piece is a row from
/// its beginning. After the last row of the pattern there is no further
/// piece, whatever time is left.
pub open spec fn row_subsegs(inner: int, row: int, height: int, row_speed: int, remaining: int) -> Seq<
    i64,
>
    decreases height - row,
{
    let whole = to_next_row(inner, row_speed);
    if remaining <= whole {
        seq![remaining as i64]
    } else if row + 1 >= height {
        seq![whole as i64]
    } else {
        seq![whole as i64].add(row_subsegs(0, row + 1, height, row_speed, remaining - whole))
    }
}

/// The slot after the instruction `ins` has been obeyed.
pub open spec fn cell_obeyed(slot: Option<ChannelView>, ins: Instruction, project: Project) -> Option<
    ChannelView,
> {
    match ins {
        Instruction::Empty => slot,
        Instruction::Cut => None,
        Instruction::Note(note) => Some(ChannelView::from_note(project, note)),
        Instruction::Stop => match slot {
            None => None,
            Some(channel) => Some(ChannelView { stopping: true, ..channel }),
        },
        Instruction::NextLoop => match slot {
            None => None,
            Some(channel) => if channel.sampler.has_next_loop(project) {
                Some(ChannelView { sampler: channel.sampler.in_next_loop(), ..channel })
            } else {
                None
            },
        },
        Instruction::Fade(secs) => match slot {
            None => None,
            Some(channel) => Some(
                ChannelView { fading: Some(Fade { length: secs, pos: 0 }), ..channel },
            ),
        },
        Instruction::Pause => match slot {
            None => None,
            Some(channel) => Some(ChannelView { paused: !channel.paused, ..channel }),
        },
    }
}

/// The slot after a frame over the window `slice`: the voice in it has
/// rendered the frame, and is gone where it is over then.
pub open spec fn slot_rendered(slot: Option<ChannelView>, project: Project, slice: AudioBufferSlice) -> Option<
    ChannelView,
> {
    match slot {
        None => None,
        Some(channel) => if channel.rendered(project, slice).finished_spec(project) {
            None
        } else {
            Some(channel.rendered(project, slice))
        },
    }
}

/// The output after the voice in a slot has rendered a frame over the
/// window `slice`.
pub open spec fn slot_mixed(
    slot: Option<ChannelView>,
    project: Project,
    out: Stereo,
    slice: AudioBufferSlice,
) -> Stereo {
    match slot {
        None => out,
        Some(channel) => Stereo {
            left: channel.rendered_side(project, out.left, slice, false),
            right: channel.rendered_side(project, out.right, slice, true),
        },
    }
}

/// The time into a frame at which the pieces `segs[k..]` end, the first of
/// them beginning at `start`.
pub open spec fn pieces_end(segs: Seq<i64>, k: int, start: int) -> int
    decreases segs.len() - k,
{
    if k < 0 || k >= segs.len() {
        start
    } else {
        pieces_end(segs, k + 1, sat64(start + segs[k]))
    }
}

impl PatternView {
    /// The pattern exists, there is a slot for each of its columns, the
    /// voices in the slots are well formed, and the place in the pattern is
    /// within it.
    pub open spec fn wf(self, project: Project) -> bool {
        &&& self.pattern < project.patterns@.len()
        &&& self.channels.len() == project.patterns@[self.pattern as int].width
        &&& forall|i: int|
            0 <= i < self.channels.len() && (#[trigger] self.channels[i]) is Some
                ==> self.channels[i]->Some_0.wf(project)
        &&& 0 <= self.inner_position <= ONE
    }

    /// The pattern that is played.
    pub open spec fn def(self, project: Project) -> Pattern {
        project.patterns@[self.pattern as int]
    }

    /// The pattern has been played to its end.
    pub open spec fn ended(self, project: Project) -> bool {
        self.row >= self.def(project).height
    }

    /// The instruction for the slot `i` in the current row.
    pub open spec fn cell(self, project: Project, i: int) -> Instruction {
        self.def(project).instructions@[self.row * self.def(project).width + i]
    }

    /// The pieces that `secs` of time falls into, row by row.
    pub open spec fn subsegs_spec(self, project: Project, secs: int) -> Seq<i64> {
        row_subsegs(
            self.inner_position as int,
            self.row as int,
            self.def(project).height as int,
            self.row_speed as int,
            secs,
        )
    }

    /// The slot `i` after a row's frame over the window `slice`: it has
    /// obeyed its instruction of the current row, and the voice in it has
    /// rendered the frame.
    pub open spec fn slot_stepped(self, project: Project, i: int, slice: AudioBufferSlice) -> Option<
        ChannelView,
    > {
        slot_rendered(cell_obeyed(self.channels[i], self.cell(project, i), project), project, slice)
    }

    /// The walker after a row's frame over the window `slice`: every slot
    /// has stepped.
    pub open spec fn row_stepped(self, project: Project, slice: AudioBufferSlice) -> PatternView {
        PatternView {
            channels: Seq::new(
                self.channels.len(),
                |i: int| self.slot_stepped(project, i, slice),
            ),
            ..self
        }
    }

    /// The output after the slots `i..` have each obeyed their instruction
    /// of the current row and rendered a frame over the window `slice`, in
    /// their order.
    pub open spec fn row_mixed(
        self,
        project: Project,
        i: int,
        out: Stereo,
        slice: AudioBufferSlice,
    ) -> Stereo
        decreases self.channels.len() - i,
    {
        if i < 0 || i >= self.channels.len() {
            out
        } else {
            self.row_mixed(
                project,
                i + 1,
                slot_mixed(
                    cell_obeyed(self.channels[i], self.cell(project, i), project),
                    project,
                    out,
                    slice,
                ),
                slice,
            )
        }
    }

    /// The walker as it begins the piece `k` of a frame: every piece but the
    /// very first begins a new row.
    pub open spec fn entered(self, k: int) -> PatternView {
        if k > 0 {
            PatternView { row: (self.row + 1) as usize, inner_position: 0, ..self }
        } else {
            self
        }
    }

    /// The walker after the pieces `segs[k..]` have been rendered one after
    /// the other, the first of them `start` into the window `slice`.
    pub open spec fn rows_stepped(
        self,
        project: Project,
        segs: Seq<i64>,
        k: int,
        start: int,
        slice: AudioBufferSlice,
    ) -> PatternView
        decreases segs.len() - k,
    {
        if k < 0 || k >= segs.len() {
            self
        } else {
            let end = sat64(start + segs[k]);
            self.entered(k).row_stepped(project, slice.sub_spec(start, end)).rows_stepped(
                project,
                segs,
                k + 1,
                end,
                slice,
            )
        }
    }

    /// The output after the pieces `segs[k..]` have been rendered one after
    /// the other, the first of them `start` into the window `slice`: each
    /// piece is a row's frame over the part of the window that it takes.
    pub open spec fn rows_mixed(
        self,
        project: Project,
        segs: Seq<i64>,
        k: int,
        start: int,
        out: Stereo,
        slice: AudioBufferSlice,
    ) -> Stereo
        decreases segs.len() - k,
    {
        if k < 0 || k >= segs.len() {
            out
        } else {
            let end = sat64(start + segs[k]);
            let part = slice.sub_spec(start, end);
            self.entered(k).row_stepped(project, part).rows_mixed(
                project,
                segs,
                k + 1,
                end,
                self.entered(k).row_mixed(project, 0, out, part),
                slice,
            )
        }
    }

    /// The walker at the end of a frame of `secs` of which `consumed` have
    /// been rendered, the last piece being `last` long. Where time is left
    /// over, the pattern has run out: the walker stands after its last row.
    /// Else it stands in its row, further on by the part of a row that the
    /// last piece is.
    pub open spec fn settled(self, secs: int, consumed: int, last: int) -> PatternView {
        if consumed < secs {
            PatternView { row: (self.row + 1) as usize, inner_position: 0, ..self }
        } else {
            PatternView {
                inner_position: min_int(
                    ONE as int,
                    self.inner_position + row_part(last, self.row_speed as int),
                ) as i32,
                ..self
            }
        }
    }

    /// Whether a frame does anything: not for a pattern that has ended, nor
    /// for one without speed.
    pub open spec fn runs(self, project: Project) -> bool {
        !self.ended(project) && self.row_speed > 0
    }

    /// The walker after a frame over the window `slice`.
    pub open spec fn rendered(self, project: Project, slice: AudioBufferSlice) -> PatternView {
        if !self.runs(project) {
            self
        } else {
            let secs = secs_of(slice.end - slice.start, slice.rate as int);
            let segs = self.subsegs_spec(project, secs);
            self.rows_stepped(project, segs, 0, 0, slice).settled(
                secs,
                pieces_end(segs, 0, 0),
                segs.last() as int,
            )
        }
    }

    /// The output after a frame over the window `slice`.
    pub open spec fn mixed(self, project: Project, out: Stereo, slice: AudioBufferSlice) -> Stereo {
        if !self.runs(project) {
            out
        } else {
            self.rows_mixed(
                project,
                self.subsegs_spec(project, secs_of(slice.end - slice.start, slice.rate as int)),
                0,
                0,
                out,
                slice,
            )
        }
    }

    /// The walker at the start of the pattern `pattern`, with its slots
    /// empty.
    pub open spec fn started(project: Project, pattern: usize) -> PatternView {
        PatternView {
            pattern,
            row: 0,
            row_speed: project.patterns@[pattern as int].row_speed,
            inner_position: 0,
            channels: Seq::new(project.patterns@[pattern as int].width as nat, |i: int| None),
        }
    }
}

/// The time from the place `inner` in a row to the end of the row.
pub fn row_segment_of(inner: i32, row_speed: i32) -> (r: i64)
    ensures
        r == to_next_row(inner as int, row_speed as int),
        r >= 0,
{
    if row_speed <= 0 {
        i64::MAX
    } else if inner >= ONE {
        0
    } else {
        let rest: u128 = (ONE as i64 - inner as i64) as u128;
        proof {
            lemma_product_bound(
                rest as int,
                TICKS_PER_SEC as int,
                0x1_0000_0000,
                TICKS_PER_SEC as int,
            );
        }
        let whole: u128 = (rest * (TICKS_PER_SEC as u128) + (row_speed as u128 - 1)) / (
        row_speed as u128);
        whole as i64
    }
}

/// The part of a row that passes in the time `secs`, one at most.
pub fn row_part_of(secs: i64, row_speed: i32) -> (r: i32)
    ensures
        r == min_int(ONE as int, row_part(secs as int, row_speed as int)),
        0 <= r <= ONE,
{
    if secs <= 0 || row_speed <= 0 {
        0
    } else {
        proof {
            lemma_product_bound(secs as int, row_speed as int, i64::MAX as int, i32::MAX as int);
        }
        let part: u128 = ((secs as u128) * (row_speed as u128)) / (TICKS_PER_SEC as u128);
        if part >= ONE as u128 {
            ONE
        } else {
            part as i32
        }
    }
}

/// The sum of some times.
pub open spec fn pieces_total(segs: Seq<i64>) -> int
    decreases segs.len(),
{
    if segs.len() == 0 {
        0
    } else {
        segs[0] + pieces_total(segs.drop_first())
    }
}

/// The time from the place `inner` in the row `row` to the end of a pattern
/// of `height` rows.
pub open spec fn to_pattern_end(inner: int, row: int, height: int, row_speed: int) -> int {
    to_next_row(inner, row_speed) + (height - row - 1) * to_next_row(0, row_speed)
}

/// The time to the end of a row is never negative and fits its type.
pub proof fn lemma_to_next_row_bounds(inner: i32, row_speed: i32)
    ensures
        0 <= to_next_row(inner as int, row_speed as int) <= i64::MAX,
{
    if row_speed > 0 && inner < ONE {
        let rest = (ONE - inner) * TICKS_PER_SEC + row_speed - 1;
        assert(0 <= rest <= 0x1_0000_0000 * 705_600_000 + 0x8000_0000) by (nonlinear_arith)
            requires
                rest == (ONE - inner) * TICKS_PER_SEC + row_speed - 1,
                0 < ONE - inner <= 0x1_0000_0000,
                TICKS_PER_SEC == 705_600_000,
                0 < row_speed <= 0x8000_0000,
        ;
        assert(0 <= rest / (row_speed as int) <= rest) by (nonlinear_arith)
            requires
                rest >= 0,
                row_speed > 0,
        ;
    }
}

/// The pieces of a frame sum to its time, or to the time that the pattern
/// has left where that is less.
pub proof fn lemma_row_subsegs_total(inner: i32, row: int, height: int, row_speed: i32, remaining: i64)
    requires
        row < height,
    ensures
        pieces_total(
            row_subsegs(inner as int, row, height, row_speed as int, remaining as int),
        ) == min_int(
            remaining as int,
            to_pattern_end(inner as int, row, height, row_speed as int),
        ),
    decreases height - row,
{
    let whole = to_next_row(inner as int, row_speed as int);
    let full = to_next_row(0, row_speed as int);
    let segs = row_subsegs(inner as int, row, height, row_speed as int, remaining as int);
    lemma_to_next_row_bounds(inner, row_speed);
    lemma_to_next_row_bounds(0, row_speed);
    assert((height - row - 1) * full >= 0) by (nonlinear_arith)
        requires
            height - row - 1 >= 0,
            full >= 0,
    ;
    if remaining <= whole {
        assert(segs.drop_first() =~= Seq::<i64>::empty());
        assert(pieces_total(segs.drop_first()) == 0);
    } else if row + 1 >= height {
        assert(segs.drop_first() =~= Seq::<i64>::empty());
        assert(pieces_total(segs.drop_first()) == 0);
        assert((height - row - 1) * full == 0) by (nonlinear_arith)
            requires
                height - row - 1 == 0,
        ;
    } else {
        let rest = row_subsegs(0, row + 1, height, row_speed as int, remaining - whole);
        lemma_row_subsegs_total(0, row + 1, height, row_speed, (remaining - whole) as i64);
        assert(segs =~= seq![whole as i64].add(rest));
        assert(segs.drop_first() =~= rest);
        assert((height - row - 1) * full == full + (height - row - 2) * full)
            by (nonlinear_arith);
    }
}

/// A frame touches no more rows than the pattern has left, and one at
/// least.
pub proof fn lemma_row_subsegs_len(inner: int, row: int, height: int, row_speed: int, remaining: int)
    requires
        row < height,
    ensures
        1 <= row_subsegs(inner, row, height, row_speed, remaining).len() <= height - row,
    decreases height - row,
{
    let whole = to_next_row(inner, row_speed);
    if remaining <= whole {
    } else if row + 1 >= height {
    } else {
        lemma_row_subsegs_len(0, row + 1, height, row_speed, remaining - whole);
    }
}

/// Obeys one instruction on one slot.
pub fn obey(project: &Project, slot: Option<ChannelState>, ins: &Instruction) -> (r: Option<
    ChannelState,
>)
    requires
        project.wf(),
        ins.wf(project.instruments@.len() as int),
        slot is Some ==> slot->Some_0@.wf(*project),
    ensures
        slot_view(r) == cell_obeyed(slot_view(slot), *ins, *project),
        r is Some ==> r->Some_0@.wf(*project),
{
    match ins {
        Instruction::Empty => slot,
        Instruction::Cut => None,
        Instruction::Note(note_ins) => Some(ChannelState::from_instruction(project, note_ins)),
        Instruction::Stop => match slot {
            None => None,
            Some(mut channel) => {
                channel.stop();
                Some(channel)
            },
        },
        Instruction::NextLoop => match slot {
            None => None,
            Some(mut channel) => {
                if channel.next_loop(project) {
                    Some(channel)
                } else {
                    None
                }
            },
        },
        Instruction::Fade(num) => match slot {
            None => None,
            Some(mut channel) => {
                channel.fade(*num);
                Some(channel)
            },
        },
        Instruction::Pause => match slot {
            None => None,
            Some(mut channel) => {
                channel.toggle_pause();
                Some(channel)
            },
        },
    }
}

/// Renders a frame of the voice in a slot, over the window `slice` of both
/// sides, and empties the slot where the voice is over then.
pub fn render_slot(
    project: &Project,
    slot: Option<ChannelState>,
    left: &mut Vec<i32>,
    right: &mut Vec<i32>,
    slice: AudioBufferSlice,
) -> (r: Option<ChannelState>)
    requires
        project.wf(),
        slot is Some ==> slot->Some_0@.wf(*project),
        slice.fits(old(left)@.len() as int),
        slice.fits(old(right)@.len() as int),
    ensures
        slot_view(r) == slot_rendered(slot_view(slot), *project, slice),
        r is Some ==> r->Some_0@.wf(*project),
        (Stereo { left: final(left)@, right: final(right)@ }) == slot_mixed(
            slot_view(slot),
            *project,
            Stereo { left: old(left)@, right: old(right)@ },
            slice,
        ),
        final(left)@.len() == old(left)@.len(),
        final(right)@.len() == old(right)@.len(),
{
    match slot {
        None => None,
        Some(mut channel) => {
            channel.render(project, left, right, slice);
            if channel.finished(project) {
                None
            } else {
                Some(channel)
            }
        },
    }
}

impl PatternState {
    /// A walker at the start of the pattern `pattern`, with an empty slot
    /// for each of its columns.
    pub fn new(project: &Project, pattern: usize) -> (r: Self)
        requires
            pattern < project.patterns@.len(),
        ensures
            r@ == PatternView::started(*project, pattern),
            r@.wf(*project),
    {
        let mut channels: Vec<Option<ChannelState>> = Vec::new();
        let width: u16 = project.patterns[pattern].width;
        let mut i: u16 = 0;
        while i < width
            invariant
                i <= width,
                channels@.len() == i,
                forall|k: int| 0 <= k < i ==> (#[trigger] channels@[k]) is None,
            decreases width - i,
        {
            channels.push(None);
            i = i + 1;
        }
        let r = PatternState {
            pattern,
            channels,
            row: 0,
            row_speed: project.patterns[pattern].row_speed,
            inner_position: 0,
        };
        assert(r@.channels =~= PatternView::started(*project, pattern).channels);
        r
    }

    /// The time from the place in the current row to the end of the row.
    pub fn row_segment(&self) -> (r: i64)
        ensures
            r == to_next_row(self.inner_position as int, self.row_speed as int),
    {
        row_segment_of(self.inner_position, self.row_speed)
    }

    /// Partitions `secs` of time into the pieces that fall into one row
    /// each.
    pub fn subsegs(&self, project: &Project, secs: i64) -> (r: Vec<i64>)
        requires
            self.pattern < project.patterns@.len(),
            self.row < project.patterns@[self.pattern as int].height,
        ensures
            r@ == self@.subsegs_spec(*project, secs as int),
            1 <= r@.len() <= project.patterns@[self.pattern as int].height - self.row,
    {
        let height: usize = project.patterns[self.pattern].height as usize;
        let mut remaining: i64 = secs;
        let mut pos: i32 = self.inner_position;
        let mut res: Vec<i64> = Vec::new();
        let mut row: usize = self.row;
        let mut more: bool = true;
        proof {
            lemma_row_subsegs_len(
                self.inner_position as int,
                self.row as int,
                height as int,
                self.row_speed as int,
                secs as int,
            );
        }
        while more
            invariant
                row < height,
                height == project.patterns@[self.pattern as int].height,
                more ==> res@.add(
                    row_subsegs(
                        pos as int,
                        row as int,
                        height as int,
                        self.row_speed as int,
                        remaining as int,
                    ),
                ) == self@.subsegs_spec(*project, secs as int),
                !more ==> res@ == self@.subsegs_spec(*project, secs as int),
            decreases height - row + (if more { 1int } else { 0int }),
        {
            let whole: i64 = row_segment_of(pos, self.row_speed);
            let ghost before = res@;
            if remaining <= whole {
                res.push(remaining);
                more = false;
                assert(res@ =~= before.add(seq![remaining]));
            } else if row + 1 >= height {
                res.push(whole);
                more = false;
                assert(res@ =~= before.add(seq![whole]));
            } else {
                res.push(whole);
                assert(res@.add(
                    row_subsegs(
                        0,
                        row + 1,
                        height as int,
                        self.row_speed as int,
                        remaining - whole,
                    ),
                ) =~= before.add(
                    row_subsegs(
                        pos as int,
                        row as int,
                        height as int,
                        self.row_speed as int,
                        remaining as int,
                    ),
                ));
                remaining = remaining - whole;
                row = row + 1;
                pos = 0;
            }
        }
        res
    }

    /// Obeys the instructions of the current row and renders a frame of
    /// every voice over the window `slice` of both sides.
    pub fn render_subseg(
        &mut self,
        project: &Project,
        left: &mut Vec<i32>,
        right: &mut Vec<i32>,
        slice: AudioBufferSlice,
    )
        requires
            project.wf(),
            old(self)@.wf(*project),
            old(self).row < project.patterns@[old(self).pattern as int].height,
            slice.fits(old(left)@.len() as int),
            slice.fits(old(right)@.len() as int),
        ensures
            final(self)@ == old(self)@.row_stepped(*project, slice),
            (Stereo { left: final(left)@, right: final(right)@ }) == old(self)@.row_mixed(
                *project,
                0,
                Stereo { left: old(left)@, right: old(right)@ },
                slice,
            ),
            final(self)@.wf(*project),
            final(left)@.len() == old(left)@.len(),
            final(right)@.len() == old(right)@.len(),
    {
        let width: usize = project.patterns[self.pattern].width as usize;
        proof {
            lemma_product_bound(width as int, self.row as int, 0xffff, 0xffff);
        }
        let row_idx_start: usize = width * self.row;
        let ghost goal = old(self)@.row_mixed(
            *project,
            0,
            Stereo { left: old(left)@, right: old(right)@ },
            slice,
        );
        proof {
            assert(project.patterns@[self.pattern as int].wf(project.instruments@.len() as int));
            assert(width * self.row + width <= width * project.patterns@[self.pattern as int].height)
                by (nonlinear_arith)
                requires
                    self.row < project.patterns@[self.pattern as int].height,
                    0 <= width,
            ;
            assert(width * self.row == self.row * width) by (nonlinear_arith);
            assert(width * project.patterns@[self.pattern as int].height
                == project.patterns@[self.pattern as int].width
                * project.patterns@[self.pattern as int].height) by (nonlinear_arith)
                requires
                    width == project.patterns@[self.pattern as int].width,
            ;
        }
        let mut i: usize = 0;
        while i < width
            invariant
                i <= width,
                project.wf(),
                self@.wf(*project),
                width == project.patterns@[self.pattern as int].width,
                self.channels@.len() == width,
                old(self)@.channels.len() == width,
                row_idx_start == self.row * width,
                row_idx_start + width <= project.patterns@[self.pattern as int].instructions@.len(),
                row_idx_start + width <= 0xffff * 0xffff + 0xffff,
                self.row == old(self).row,
                self.pattern == old(self).pattern,
                self.row_speed == old(self).row_speed,
                self.inner_position == old(self).inner_position,
                slice.fits(left@.len() as int),
                slice.fits(right@.len() as int),
                left@.len() == old(left)@.len(),
                right@.len() == old(right)@.len(),
                forall|j: int|
                    0 <= j < i ==> #[trigger] self@.channels[j] == old(self)@.slot_stepped(
                        *project,
                        j,
                        slice,
                    ),
                forall|j: int| i <= j < width ==> #[trigger] self@.channels[j] == old(self)@.channels[j],
                old(self)@.row_mixed(
                    *project,
                    i as int,
                    Stereo { left: left@, right: right@ },
                    slice,
                ) == goal,
            decreases width - i,
        {
            let ghost before = self@;
            let instruction: &Instruction = &project.patterns[self.pattern].instructions[
                row_idx_start + i];
            assert(instruction.wf(project.instruments@.len() as int));
            assert(before.channels[i as int] == slot_view(self.channels@[i as int]));
            assert(before.channels[i as int] == old(self)@.channels[i as int]);
            assert(*instruction == old(self)@.cell(*project, i as int));
            let slot: Option<ChannelState> = self.channels[i].take();
            let obeyed: Option<ChannelState> = obey(project, slot, instruction);
            let after: Option<ChannelState> = render_slot(project, obeyed, left, right, slice);
            self.channels.set(i, after);
            proof {
                assert(self@.channels =~= before.channels.update(i as int, slot_view(after)));
            }
            i = i + 1;
        }
        assert(self@.channels =~= old(self)@.row_stepped(*project, slice).channels);
    }

    /// Renders a frame over the window `slice` of both sides: row by row,
    /// each row's instructions are obeyed and its voices rendered over the
    /// part of the window that the row takes. The result says whether the
    /// pattern has ended.
    pub fn render(
        &mut self,
        project: &Project,
        left: &mut Vec<i32>,
        right: &mut Vec<i32>,
        slice: AudioBufferSlice,
    ) -> (r: bool)
        requires
            project.wf(),
            old(self)@.wf(*project),
            slice.fits(old(left)@.len() as int),
            slice.fits(old(right)@.len() as int),
        ensures
            final(self)@ == old(self)@.rendered(*project, slice),
            (Stereo { left: final(left)@, right: final(right)@ }) == old(self)@.mixed(
                *project,
                Stereo { left: old(left)@, right: old(right)@ },
                slice,
            ),
            r == final(self)@.ended(*project),
            final(self)@.wf(*project),
            final(left)@.len() == old(left)@.len(),
            final(right)@.len() == old(right)@.len(),
    {
        let height: usize = project.patterns[self.pattern].height as usize;
        if self.row >= height {
            return true;
        }
        if self.row_speed <= 0 {
            return false;
        }
        let secs: i64 = slice.len_secs();
        let subsegs: Vec<i64> = self.subsegs(project, secs);
        let ghost goal_state = old(self)@.rows_stepped(*project, subsegs@, 0, 0, slice);
        let ghost goal_out = old(self)@.rows_mixed(
            *project,
            subsegs@,
            0,
            0,
            Stereo { left: old(left)@, right: old(right)@ },
            slice,
        );
        let ghost goal_end = pieces_end(subsegs@, 0, 0);
        let mut start: i64 = 0;
        let mut k: usize = 0;
        while k < subsegs.len()
            invariant
                k <= subsegs@.len(),
                project.wf(),
                self@.wf(*project),
                slice.fits(left@.len() as int),
                slice.fits(right@.len() as int),
                left@.len() == old(left)@.len(),
                right@.len() == old(right)@.len(),
                self.pattern == old(self).pattern,
                self.row_speed == old(self).row_speed,
                height == project.patterns@[self.pattern as int].height,
                1 <= subsegs@.len() <= height - old(self).row,
                k == 0 ==> self.row == old(self).row,
                k > 0 ==> self.row == old(self).row + k - 1,
                self@.rows_stepped(*project, subsegs@, k as int, start as int, slice) == goal_state,
                self@.rows_mixed(
                    *project,
                    subsegs@,
                    k as int,
                    start as int,
                    Stereo { left: left@, right: right@ },
                    slice,
                ) == goal_out,
                pieces_end(subsegs@, k as int, start as int) == goal_end,
            decreases subsegs@.len() - k,
        {
            if k > 0 {
                self.row = self.row + 1;
                self.inner_position = 0;
            }
            let end: i64 = clamp_i64(start as i128 + subsegs[k] as i128);
            self.render_subseg(project, left, right, slice.sub(start, end));
            start = end;
            k = k + 1;
        }
        let last: i64 = subsegs[subsegs.len() - 1];
        if start < secs {
            self.row = self.row + 1;
            self.inner_position = 0;
        } else {
            let part: i32 = row_part_of(last, self.row_speed);
            self.inner_position =
            if part >= ONE - self.inner_position {
                ONE
            } else {
                self.inner_position + part
            };
        }
        self.row >= height
    }

    /// The instructions of the current row.
    pub fn curr_instructions<'a>(&self, project: &'a Project) -> (r: &'a [Instruction])
        requires
            project.wf(),
            self.pattern < project.patterns@.len(),
            self.row < project.patterns@[self.pattern as int].height,
        ensures
            r@ == project.patterns@[self.pattern as int].instructions@.subrange(
                self.row * project.patterns@[self.pattern as int].width,
                (self.row + 1) * project.patterns@[self.pattern as int].width,
            ),
    {
        let pattern = &project.patterns[self.pattern];
        let width: usize = pattern.width as usize;
        proof {
            assert(pattern.wf(project.instruments@.len() as int));
            lemma_product_bound(self.row as int + 1, width as int, 0xffff, 0xffff);
            lemma_product_bound(self.row as int, width as int, 0xffff, 0xffff);
            assert((self.row + 1) * width <= pattern.height * width) by (nonlinear_arith)
                requires
                    self.row < pattern.height,
                    0 <= width,
            ;
            assert(self.row * width <= (self.row + 1) * width) by (nonlinear_arith)
                requires
                    0 <= width,
            ;
            assert(pattern.height * width == pattern.width * pattern.height) by (nonlinear_arith)
                requires
                    width == pattern.width,
            ;
        }
        let cells: &[Instruction] = pattern.instructions.as_slice();
        &cells[self.row * width..(self.row + 1) * width]
    }

    /// The slots, one for each column of the pattern.
    pub fn channels(&mut self) -> (r: &mut Vec<Option<ChannelState>>)
        ensures
            *r == old(self).channels,
            *final(self) == (PatternState { channels: *final(r), ..*old(self) }),
    {
        &mut self.channels
    }
}

} // verus!
