//! Playback positions, loop definitions and the partition of a duration into
//! runs that cross no loop boundary.

use vstd::prelude::*;
use crate::fixed::{abs_int, clamp_i64, sat64};

verus! {

/// A window of source time, from `from` up to `to`.
#[derive(Clone, Copy, Debug)]
pub struct LoopSection {
    pub from: i64,
    pub to: i64,
}

/// What happens when the playhead reaches a boundary.
#[derive(Clone, Copy, Debug)]
pub enum LoopDef {
    Off,
    Forward(LoopSection),
    PingPong(LoopSection),
}

/// The kind of a loop, without its section.
#[derive(Clone, Copy, Debug, PartialEq, Eq)]
pub enum LoopType {
    Off,
    Forward,
    PingPong,
}

/// A playhead: a source time and a direction.
#[derive(Clone, Copy, Debug)]
pub struct Position {
    pub at: i64,
    pub reversing: bool,
}

/// A run of playback in one direction that crosses no loop boundary.
#[derive(Clone, Copy, Debug)]
pub struct Subseg {
    pub length: i64,
    pub from: Position,
}

impl LoopSection {
    /// A section has its end after its start.
    pub open spec fn wf(self) -> bool {
        self.from < self.to
    }

    /// The time from the start of the section to its end.
    pub fn len(&self) -> (r: i64)
        ensures
            r == sat64(self.to - self.from),
    {
        clamp_i64(self.to as i128 - self.from as i128)
    }
}

impl Position {
    /// The position `amount` further along the current direction.
    pub open spec fn after_spec(self, amount: int) -> Position {
        Position {
            at: sat64(
                if self.reversing {
                    self.at - amount
                } else {
                    self.at + amount
                },
            ) as i64,
            reversing: self.reversing,
        }
    }

    /// The position after turning round `past` beyond a boundary: the
    /// direction flips and the overshoot is folded back twice.
    pub open spec fn bounce_spec(self, past: int) -> Position {
        Position {
            at: sat64(
                if self.reversing {
                    self.at + 2 * past
                } else {
                    self.at - 2 * past
                },
            ) as i64,
            reversing: !self.reversing,
        }
    }

    /// The position `amount_secs` further along the current direction.
    pub fn after(&self, amount_secs: i64) -> (r: Position)
        ensures
            r == self.after_spec(amount_secs as int),
    {
        let step: i128 = if self.reversing {
            self.at as i128 - amount_secs as i128
        } else {
            self.at as i128 + amount_secs as i128
        };
        Position { at: clamp_i64(step), reversing: self.reversing }
    }

    /// The position after turning round `past_secs` beyond a boundary.
    pub fn bounce(&self, past_secs: i64) -> (r: Position)
        ensures
            r == self.bounce_spec(past_secs as int),
    {
        let step: i128 = if self.reversing {
            self.at as i128 + 2 * (past_secs as i128)
        } else {
            self.at as i128 - 2 * (past_secs as i128)
        };
        Position { at: clamp_i64(step), reversing: !self.reversing }
    }
}

impl Subseg {
    /// The time that the run lasts.
    pub fn len(&self) -> (r: i64)
        ensures
            r == self.length,
    {
        self.length
    }

    /// Where the run ends.
    pub fn end(&self) -> (r: Position)
        ensures
            r == self.from.after_spec(self.length as int),
    {
        self.from.after(self.length)
    }
}

/// The sum of the lengths of some runs.
pub open spec fn total_length(segs: Seq<Subseg>) -> int
    decreases segs.len(),
{
    if segs.len() == 0 {
        0
    } else {
        segs[0].length + total_length(segs.drop_first())
    }
}

/// The error of [`LoopDef::next_start`] on a definition that does not loop.
pub const NO_NEXT_START: &'static str = "Cannot get the next start of a LoopDef::Off!";

impl LoopDef {
    /// The section of a looping definition is well formed.
    pub open spec fn wf(self) -> bool {
        match self {
            LoopDef::Off => true,
            LoopDef::Forward(section) => section.wf(),
            LoopDef::PingPong(section) => section.wf(),
        }
    }

    /// The kind of this loop.
    pub fn loop_type(&self) -> (r: LoopType)
        ensures
            (self is Off) == (r is Off),
            (self is Forward) == (r is Forward),
            (self is PingPong) == (r is PingPong),
    {
        match self {
            LoopDef::Off => LoopType::Off,
            LoopDef::Forward(_) => LoopType::Forward,
            LoopDef::PingPong(_) => LoopType::PingPong,
        }
    }

    /// The boundary that a playhead at `position` reaches next, if any.
    pub open spec fn stop_spec(self, position: Position) -> Option<i64> {
        match self {
            LoopDef::Off => None,
            LoopDef::Forward(section) | LoopDef::PingPong(section) => Some(
                if position.reversing && position.at < section.from {
                    0i64
                } else if position.reversing {
                    section.from
                } else {
                    section.to
                },
            ),
        }
    }

    /// Where playback resumes once the playhead at `from` has reached its
    /// stop. A forward loop jumps to the opposite end and keeps its direction;
    /// a ping-pong loop stays at the end it reached and turns round. A
    /// playhead that ran backwards out of the section restarts at time zero.
    pub open spec fn start_spec(self, from: Position) -> Position {
        match self {
            LoopDef::Off => from,
            LoopDef::Forward(section) => if from.reversing && from.at < section.from {
                Position { at: 0, reversing: false }
            } else {
                Position {
                    at: if from.reversing {
                        section.to
                    } else {
                        section.from
                    },
                    reversing: from.reversing,
                }
            },
            LoopDef::PingPong(section) => if from.reversing && from.at < section.from {
                Position { at: 0, reversing: false }
            } else {
                Position {
                    at: if from.reversing {
                        section.from
                    } else {
                        section.to
                    },
                    reversing: !from.reversing,
                }
            },
        }
    }

    /// The time from `position` to its next stop; zero where there is none.
    pub open spec fn distance(self, position: Position) -> int {
        match self.stop_spec(position) {
            None => 0,
            Some(stop) => abs_int(stop - position.at),
        }
    }

    /// 1 for a playhead that stands on its stop, else 0.
    pub open spec fn stalled(self, position: Position) -> int {
        if self.stop_spec(position).is_some() && self.distance(position) == 0 {
            1
        } else {
            0
        }
    }

    /// The runs that `remaining` of playback from `from` falls into: each one
    /// goes from where the last one resumed up to the next stop, and the last
    /// one takes what is left.
    pub open spec fn subsegs_spec(self, from: Position, remaining: int) -> Seq<Subseg>
        decreases remaining, self.stalled(from),
        when self.wf()
    {
        if remaining <= 0 {
            Seq::empty()
        } else if self.stop_spec(from).is_none() || remaining <= self.distance(from) {
            seq![Subseg { length: remaining as i64, from }]
        } else {
            seq![Subseg { length: self.distance(from) as i64, from }].add(
                self.subsegs_spec(self.start_spec(from), remaining - self.distance(from)),
            )
        }
    }

    /// Where the playhead stands after `duration` of playback from `from`:
    /// the end of the last run (`from` itself where nothing was played).
    pub open spec fn advance_spec(self, from: Position, duration: int) -> Position {
        let segs = self.subsegs_spec(from, duration);
        if segs.len() == 0 {
            from
        } else {
            segs.last().from.after_spec(segs.last().length as int)
        }
    }

    /// Partitions `after_secs` of playback from `from` into runs bounded by
    /// the stops of this loop.
    pub fn subsegs(&self, from: Position, after_secs: i64) -> (r: Vec<Subseg>)
        requires
            self.wf(),
        ensures
            r@ == self.subsegs_spec(from, after_secs as int),
            total_length(r@) == (if after_secs > 0 { after_secs as int } else { 0 }),
    {
        let mut position = from;
        let mut subsegs: Vec<Subseg> = Vec::new();
        let mut remaining: i64 = after_secs;
        proof {
            self.lemma_subsegs_total(from, after_secs as int);
        }
        while remaining > 0
            invariant
                self.wf(),
                total_length(self.subsegs_spec(from, after_secs as int)) == (if after_secs > 0 {
                    after_secs as int
                } else {
                    0
                }),
                subsegs@.add(self.subsegs_spec(position, remaining as int)) == self.subsegs_spec(
                    from,
                    after_secs as int,
                ),
            decreases remaining, self.stalled(position),
        {
            let ghost rest = self.subsegs_spec(position, remaining as int);
            match self.next_stop(position) {
                None => {
                    subsegs.push(Subseg { length: remaining, from: position });
                    assert(subsegs@ == self.subsegs_spec(from, after_secs as int));
                    return subsegs;
                },
                Some(stop) => {
                    let gap: i128 = stop as i128 - position.at as i128;
                    let distance: i128 = if gap < 0 {
                        -gap
                    } else {
                        gap
                    };
                    if remaining as i128 <= distance {
                        subsegs.push(Subseg { length: remaining, from: position });
                        assert(subsegs@ == self.subsegs_spec(from, after_secs as int));
                        return subsegs;
                    }
                    let run: i64 = distance as i64;
                    let ghost before = subsegs@;
                    subsegs.push(Subseg { length: run, from: position });
                    remaining = remaining - run;
                    position =
                    match self.next_start(position) {
                        Ok(next) => next,
                        Err(_) => position,
                    };
                    assert(before.push(Subseg { length: run, from: rest[0].from }).add(
                        self.subsegs_spec(position, remaining as int),
                    ) == before.add(rest));
                },
            }
        }
        assert(subsegs@.add(Seq::<Subseg>::empty()) == subsegs@);
        subsegs
    }

    /// A partition covers exactly the duration asked for: the lengths of its
    /// runs sum to it, and none is negative.
    pub proof fn lemma_subsegs_total(self, from: Position, duration: int)
        requires
            self.wf(),
            duration <= i64::MAX,
        ensures
            total_length(self.subsegs_spec(from, duration)) == (if duration > 0 {
                duration
            } else {
                0
            }),
        decreases duration, self.stalled(from),
    {
        let segs = self.subsegs_spec(from, duration);
        if duration <= 0 {
        } else if self.stop_spec(from).is_none() || duration <= self.distance(from) {
            assert(segs == seq![Subseg { length: duration as i64, from }]);
            assert(segs.drop_first() == Seq::<Subseg>::empty());
            assert(total_length(segs.drop_first()) == 0);
        } else {
            let rest = self.subsegs_spec(self.start_spec(from), duration - self.distance(from));
            self.lemma_subsegs_total(self.start_spec(from), duration - self.distance(from));
            assert(segs == seq![Subseg { length: self.distance(from) as i64, from }].add(rest));
            assert(segs.drop_first() == rest);
        }
    }

    /// The first run of a playhead that has further to play than the distance
    /// to its stop ends on that stop, and the second resumes where
    /// [`LoopDef::start_spec`] says.
    pub proof fn lemma_subsegs_cross(self, from: Position, duration: int)
        requires
            self.wf(),
            self.stop_spec(from).is_some(),
            self.distance(from) < duration <= i64::MAX,
        ensures
            self.subsegs_spec(from, duration).len() >= 2,
            self.subsegs_spec(from, duration)[0] == (Subseg {
                length: self.distance(from) as i64,
                from,
            }),
            self.subsegs_spec(from, duration)[1].from == self.start_spec(from),
            self.subsegs_spec(from, duration).subrange(
                1,
                self.subsegs_spec(from, duration).len() as int,
            ) == self.subsegs_spec(self.start_spec(from), duration - self.distance(from)),
    {
        let segs = self.subsegs_spec(from, duration);
        let next = self.start_spec(from);
        let left = duration - self.distance(from);
        let rest = self.subsegs_spec(next, left);
        assert(segs == seq![Subseg { length: self.distance(from) as i64, from }].add(rest));
        assert(rest.len() >= 1 && rest[0].from == next) by {
            if self.stop_spec(next).is_none() || left <= self.distance(next) {
                assert(rest == seq![Subseg { length: left as i64, from: next }]);
            } else {
                assert(rest == seq![Subseg { length: self.distance(next) as i64, from: next }].add(
                    self.subsegs_spec(self.start_spec(next), left - self.distance(next)),
                ));
            }
        }
        assert(segs[1] == rest[0]);
        assert(segs.subrange(1, segs.len() as int) == rest);
    }

    /// No run crosses a boundary: every run but the last goes exactly to the
    /// stop of the playhead it starts from, and the next run starts where
    /// playback resumes from there; the last run ends on the stop or before
    /// it; and no run has a negative length.
    pub proof fn lemma_subsegs_runs(self, from: Position, duration: int, k: int)
        requires
            self.wf(),
            duration <= i64::MAX,
            0 <= k < self.subsegs_spec(from, duration).len(),
        ensures
            ({
                let segs = self.subsegs_spec(from, duration);
                &&& segs[0].from == from
                &&& 0 <= segs[k].length
                &&& self.stop_spec(segs[k].from).is_some() ==> segs[k].length <= self.distance(
                    segs[k].from,
                )
                &&& k + 1 < segs.len() ==> {
                    &&& self.stop_spec(segs[k].from).is_some()
                    &&& segs[k].length == self.distance(segs[k].from)
                    &&& segs[k + 1].from == self.start_spec(segs[k].from)
                }
            }),
        decreases k,
    {
        let segs = self.subsegs_spec(from, duration);
        if self.stop_spec(from).is_none() || duration <= self.distance(from) {
            assert(segs == seq![Subseg { length: duration as i64, from }]);
        } else {
            self.lemma_subsegs_cross(from, duration);
            let next = self.start_spec(from);
            let rest = self.subsegs_spec(next, duration - self.distance(from));
            assert(segs.subrange(1, segs.len() as int) == rest);
            if k > 0 {
                self.lemma_subsegs_runs(next, duration - self.distance(from), k - 1);
                assert(segs[k] == segs.subrange(1, segs.len() as int)[k - 1]);
                if k + 1 < segs.len() {
                    assert(segs[k + 1] == segs.subrange(1, segs.len() as int)[k]);
                }
            }
        }
    }

    /// The playhead moves towards its stop, where it has one.
    pub open spec fn heads_for_stop(self, position: Position) -> bool {
        match self.stop_spec(position) {
            None => true,
            Some(stop) => if position.reversing {
                stop <= position.at
            } else {
                position.at <= stop
            },
        }
    }

    /// Where playback of some time leads: straight on where the stop is not
    /// passed, else on from where playback resumes, by what is left.
    pub proof fn lemma_advance_unfold(self, from: Position, duration: int)
        requires
            self.wf(),
            0 < duration <= i64::MAX,
        ensures
            self.stop_spec(from).is_none() || duration <= self.distance(from)
                ==> self.advance_spec(from, duration) == from.after_spec(duration),
            self.stop_spec(from).is_some() && duration > self.distance(from) ==> self.advance_spec(
                from,
                duration,
            ) == self.advance_spec(self.start_spec(from), duration - self.distance(from)),
    {
        let segs = self.subsegs_spec(from, duration);
        if self.stop_spec(from).is_none() || duration <= self.distance(from) {
            assert(segs == seq![Subseg { length: duration as i64, from }]);
            assert(segs.last() == segs[0]);
        } else {
            self.lemma_subsegs_cross(from, duration);
            let rest = self.subsegs_spec(self.start_spec(from), duration - self.distance(from));
            assert(segs.subrange(1, segs.len() as int) == rest);
            assert(rest.len() == segs.len() - 1);
            assert(rest.last() == segs.last()) by {
                assert(rest[rest.len() - 1] == segs.subrange(1, segs.len() as int)[rest.len() - 1]);
            }
        }
    }

    /// Time composes: for a playhead that moves towards its stop, playing
    /// one time and then another leads where playing the two times in one
    /// leads, and there the playhead moves towards its stop again.
    pub proof fn lemma_advance_adds(self, from: Position, first: int, second: int)
        requires
            self.wf(),
            self.heads_for_stop(from),
            0 <= first,
            0 <= second,
            first + second <= i64::MAX,
        ensures
            self.advance_spec(self.advance_spec(from, first), second) == self.advance_spec(
                from,
                first + second,
            ),
            self.heads_for_stop(self.advance_spec(from, first)),
        decreases first, self.stalled(from),
    {
        if first == 0 {
            assert(self.subsegs_spec(from, 0).len() == 0);
        } else {
            self.lemma_advance_unfold(from, first);
            self.lemma_advance_unfold(from, first + second);
            if self.stop_spec(from).is_none() || first <= self.distance(from) {
                let reached = from.after_spec(first);
                if second == 0 {
                    assert(self.subsegs_spec(reached, 0).len() == 0);
                } else {
                    self.lemma_advance_unfold(reached, second);
                }
            } else {
                self.lemma_advance_adds(
                    self.start_spec(from),
                    first - self.distance(from),
                    second,
                );
            }
        }
    }

    /// The boundary that a playhead at `position` reaches next, if any.
    pub fn next_stop(&self, position: Position) -> (r: Option<i64>)
        ensures
            r == self.stop_spec(position),
    {
        match *self {
            LoopDef::Off => None,
            LoopDef::Forward(section) => Some(
                if position.reversing && position.at < section.from {
                    0
                } else if position.reversing {
                    section.from
                } else {
                    section.to
                },
            ),
            LoopDef::PingPong(section) => Some(
                if position.reversing && position.at < section.from {
                    0
                } else if position.reversing {
                    section.from
                } else {
                    section.to
                },
            ),
        }
    }

    /// Where playback resumes once the playhead at `from` has reached its
    /// stop; an error for a definition that does not loop.
    pub fn next_start(&self, from: Position) -> (r: Result<Position, &'static str>)
        ensures
            self is Off <==> r is Err,
            r is Err ==> r == Err::<Position, &'static str>(NO_NEXT_START),
            r is Ok ==> r == Ok::<Position, &'static str>(self.start_spec(from)),
    {
        match *self {
            LoopDef::Off => Err(NO_NEXT_START),
            LoopDef::Forward(section) => Ok(
                if from.reversing && from.at < section.from {
                    Position { reversing: false, at: 0 }
                } else {
                    Position {
                        reversing: from.reversing,
                        at: if from.reversing {
                            section.to
                        } else {
                            section.from
                        },
                    }
                },
            ),
            LoopDef::PingPong(section) => Ok(
                if from.reversing && from.at < section.from {
                    Position { reversing: false, at: 0 }
                } else {
                    Position {
                        reversing: !from.reversing,
                        at: if from.reversing {
                            section.from
                        } else {
                            section.to
                        },
                    }
                },
            ),
        }
    }
}

/// Playing a forward loop through the end of its section takes the playhead
/// back to the start of the section, in the same direction.
pub proof fn lemma_forward_wraps(section: LoopSection, from: Position, duration: int)
    requires
        section.wf(),
        !from.reversing,
        from.at <= section.to,
        section.to - from.at < duration <= i64::MAX,
    ensures
        ({
            let segs = LoopDef::Forward(section).subsegs_spec(from, duration);
            &&& segs.len() >= 2
            &&& segs[0] == (Subseg { length: (section.to - from.at) as i64, from })
            &&& segs[1].from == (Position { at: section.from, reversing: false })
        }),
{
    LoopDef::Forward(section).lemma_subsegs_cross(from, duration);
}

/// Playing a ping-pong loop through the end of its section turns the playhead
/// round on the end; playing on through the start of the section turns it
/// round again on the start.
pub proof fn lemma_ping_pong_turns(section: LoopSection, from: Position, duration: int)
    requires
        section.wf(),
        !from.reversing,
        from.at <= section.to,
        section.to - from.at < duration <= i64::MAX,
    ensures
        ({
            let segs = LoopDef::PingPong(section).subsegs_spec(from, duration);
            &&& segs.len() >= 2
            &&& segs[0] == (Subseg { length: (section.to - from.at) as i64, from })
            &&& segs[1].from == (Position { at: section.to, reversing: true })
            &&& duration > (section.to - from.at) + (section.to - section.from) ==> {
                &&& segs.len() >= 3
                &&& segs[1].length == section.to - section.from
                &&& segs[2].from == (Position { at: section.from, reversing: false })
            }
        }),
{
    let def = LoopDef::PingPong(section);
    let segs = def.subsegs_spec(from, duration);
    def.lemma_subsegs_cross(from, duration);
    let turned = Position { at: section.to, reversing: true };
    let left = duration - (section.to - from.at);
    if left > section.to - section.from {
        def.lemma_subsegs_cross(turned, left);
        let rest = def.subsegs_spec(turned, left);
        assert(segs.subrange(1, segs.len() as int) == rest);
        assert(segs[1] == segs.subrange(1, segs.len() as int)[0]);
        assert(segs[2] == segs.subrange(1, segs.len() as int)[1]);
    }
}

} // verus!
