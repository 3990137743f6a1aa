use condemus::common::instrument::{BasicMode, Instrument, InstrumentMode};
use condemus::common::pattern::{Instruction, NoteInstruction, Pattern};
use condemus::common::position::{LoopDef, LoopSection};
use condemus::common::project::Project;
use condemus::common::sample::Sample;
use condemus::fixed::{ONE, TICKS_PER_SEC};
use condemus::renderer::channel::ChannelState;
use condemus::renderer::pattern::{obey, render_slot, row_part_of, row_segment_of, PatternState};
use condemus::renderer::samplers::SamplerState;
use condemus::resample::Resampler;
use condemus::stream::AudioBufferSlice;

const SEC: i64 = TICKS_PER_SEC as i64;
const H: i32 = ONE / 2;

fn window(len: usize, rate: u32) -> AudioBufferSlice {
    AudioBufferSlice { start: 0, end: len, rate, resampler: Resampler::Linear }
}

fn note() -> Instruction {
    Instruction::Note(NoteInstruction {
        instrument: 0,
        pitch: 60 * ONE,
        pan: 0,
        volume: ONE,
        effects: vec![],
    })
}

fn project(cells: Vec<Instruction>, width: u16, height: u16, row_speed: i32) -> Project {
    Project {
        samples: vec![Sample { audio: vec![ONE; 4], baserate: 4 }],
        instruments: vec![Instrument {
            sample: 0,
            volume: ONE,
            pan: 0,
            base_pitch: 60 * ONE,
            mode: InstrumentMode::Basic(BasicMode {
                start: 0,
                loops: vec![LoopDef::Forward(LoopSection { from: 0, to: SEC })],
            }),
        }],
        patterns: vec![Pattern { instructions: cells, width, height, commands: vec![], row_speed }],
        tracks: vec![],
    }
}

fn column(cells: Vec<Instruction>) -> Project {
    let height = cells.len() as u16;
    let p = project(cells, 1, height, ONE);
    assert!(p.validate());
    p
}

fn play(p: &Project, samples: usize) -> (Vec<i32>, PatternState, bool) {
    let mut walker = PatternState::new(p, 0);
    let mut left = vec![0; samples];
    let mut right = vec![0; samples];
    let ended = walker.render(p, &mut left, &mut right, window(samples, 4));
    assert_eq!(left, right);
    (left, walker, ended)
}

fn rows(values: &[i32]) -> Vec<i32> {
    values.iter().flat_map(|v| vec![*v; 4]).collect()
}

#[test]
fn a_new_walker_stands_at_the_first_row_with_empty_slots() {
    let p = project(vec![], 3, 0, 10 * ONE);
    let w = PatternState::new(&p, 0);
    assert_eq!((w.pattern, w.row, w.row_speed, w.inner_position), (0, 0, 10 * ONE, 0));
    assert_eq!(w.channels.len(), 3);
    assert!(w.channels.iter().all(|c| c.is_none()));
}

#[test]
fn a_row_lasts_one_over_the_row_speed() {
    assert_eq!(row_segment_of(0, 10 * ONE), SEC / 10);
    assert_eq!(row_segment_of(ONE / 2, 10 * ONE), SEC / 20);
    assert_eq!(row_segment_of(ONE, 10 * ONE), 0);
    assert_eq!(row_segment_of(0, ONE / 2), 2 * SEC);
    assert_eq!(row_segment_of(0, 0), i64::MAX);
    assert_eq!(row_segment_of(0, -ONE), i64::MAX);
    assert_eq!(row_segment_of(0, 3 * ONE), SEC / 3);
    assert_eq!(row_segment_of(0, 7 * ONE), SEC / 7);
    assert_eq!(row_segment_of(0, 11 * ONE), SEC / 11 + 1);
    let mut w = PatternState::new(&project(vec![], 1, 0, 4 * ONE), 0);
    w.inner_position = ONE / 4;
    assert_eq!(w.row_segment(), 3 * SEC / 16);
}

#[test]
fn the_part_of_a_row_that_a_time_is() {
    assert_eq!(row_part_of(SEC / 20, 10 * ONE), ONE / 2);
    assert_eq!(row_part_of(SEC / 10, 10 * ONE), ONE);
    assert_eq!(row_part_of(SEC, 10 * ONE), ONE);
    assert_eq!(row_part_of(0, 10 * ONE), 0);
    assert_eq!(row_part_of(SEC, 0), 0);
}

#[test]
fn time_falls_into_pieces_row_by_row() {
    let p = project(vec![Instruction::Empty, Instruction::Empty, Instruction::Empty], 1, 3, 10 * ONE);
    let mut w = PatternState::new(&p, 0);
    let row = SEC / 10;
    assert_eq!(w.subsegs(&p, 35 * SEC / 100), vec![row, row, row]);
    assert_eq!(w.subsegs(&p, 25 * SEC / 100), vec![row, row, row / 2]);
    assert_eq!(w.subsegs(&p, row), vec![row]);
    assert_eq!(w.subsegs(&p, row + 1), vec![row, 1]);
    assert_eq!(w.subsegs(&p, 0), vec![0]);
    w.inner_position = ONE / 2;
    assert_eq!(w.subsegs(&p, row), vec![row / 2, row / 2]);
    w.row = 2;
    assert_eq!(w.subsegs(&p, row), vec![row / 2]);
    w.inner_position = ONE;
    assert_eq!(w.subsegs(&p, row), vec![0]);
}

#[test]
fn a_pattern_without_speed_never_leaves_its_row() {
    let p = project(vec![note(), Instruction::Empty], 1, 2, 0);
    let w = PatternState::new(&p, 0);
    assert_eq!(w.subsegs(&p, 5 * SEC), vec![5 * SEC]);
    let (out, w, ended) = play(&p, 40);
    assert!(!ended);
    assert_eq!(out, vec![0; 40]);
    assert_eq!((w.row, w.inner_position), (0, 0));
    assert!(w.channels[0].is_none());
}

#[test]
fn a_note_sounds_until_the_pattern_ends() {
    let p = column(vec![note(), Instruction::Empty, Instruction::Empty]);
    let (out, w, ended) = play(&p, 16);
    assert_eq!(out, rows(&[H, H, H, 0]));
    assert!(ended);
    assert_eq!((w.row, w.inner_position), (3, 0));
}

#[test]
fn a_walker_stops_within_a_row() {
    let p = column(vec![note(), Instruction::Empty, Instruction::Empty]);
    let (out, w, ended) = play(&p, 6);
    assert_eq!(out, vec![H; 6]);
    assert!(!ended);
    assert_eq!((w.row, w.inner_position), (1, ONE / 2));
}

#[test]
fn a_walker_at_the_end_of_a_row_stays_in_it() {
    let p = column(vec![note(), Instruction::Empty, Instruction::Empty]);
    let (_, mut w, ended) = play(&p, 8);
    assert!(!ended);
    assert_eq!((w.row, w.inner_position), (1, ONE));
    let mut left = vec![0; 4];
    let mut right = vec![0; 4];
    let ended = w.render(&p, &mut left, &mut right, window(4, 4));
    assert!(!ended);
    assert_eq!((w.row, w.inner_position), (2, ONE));
    assert_eq!(left, vec![H; 4]);
    let ended = w.render(&p, &mut left, &mut right, window(4, 4));
    assert!(ended);
    assert_eq!(w.row, 3);
}

#[test]
fn an_ended_pattern_renders_nothing() {
    let p = column(vec![note()]);
    let (_, mut w, ended) = play(&p, 8);
    assert!(ended);
    let mut left = vec![5; 4];
    let mut right = vec![6; 4];
    assert!(w.render(&p, &mut left, &mut right, window(4, 4)));
    assert_eq!((left, right), (vec![5; 4], vec![6; 4]));
    assert_eq!(w.row, 1);
}

#[test]
fn cut_silences_at_once_and_stop_after_its_row() {
    let p = column(vec![note(), Instruction::Cut, Instruction::Empty]);
    let (out, w, _) = play(&p, 12);
    assert_eq!(out, rows(&[H, 0, 0]));
    assert!(w.channels[0].is_none());
    let p = column(vec![note(), Instruction::Stop, Instruction::Empty]);
    let (out, w, _) = play(&p, 12);
    assert_eq!(out, rows(&[H, H, 0]));
    assert!(w.channels[0].is_none());
}

#[test]
fn pause_holds_the_voice_until_the_next_pause() {
    let p = column(vec![note(), Instruction::Pause, Instruction::Empty, Instruction::Pause, Instruction::Empty]);
    let (out, w, _) = play(&p, 18);
    assert_eq!(out, [rows(&[H, 0, 0, H]), vec![H, H]].concat());
    match &w.channels[0] {
        Some(ChannelState { sampler: SamplerState::Basic(s), paused, .. }) => {
            assert!(!paused);
            assert_eq!(s.position.at, SEC / 2);
        }
        _ => panic!("the voice plays"),
    }
}

#[test]
fn fade_lowers_the_voice_row_by_row_and_ends_it() {
    let p = column(vec![note(), Instruction::Fade(2 * SEC), Instruction::Empty, Instruction::Empty]);
    let (out, w, _) = play(&p, 16);
    assert_eq!(out, rows(&[H, H, H / 2, 0]));
    assert!(w.channels[0].is_none());
}

#[test]
fn instructions_for_an_empty_slot_do_nothing() {
    for ins in [Instruction::Stop, Instruction::NextLoop, Instruction::Fade(SEC), Instruction::Pause, Instruction::Cut] {
        let p = project(vec![ins, note()], 2, 1, ONE);
        assert!(p.validate());
        let (out, w, _) = play(&p, 4);
        assert_eq!(out, vec![H; 4]);
        assert!(w.channels[0].is_none());
        assert!(w.channels[1].is_some());
    }
}

#[test]
fn the_voices_of_a_row_are_summed() {
    let p = project(vec![note(), note(), note(), Instruction::Empty, Instruction::Cut, Instruction::Empty], 3, 2, ONE);
    assert!(p.validate());
    let (out, w, ended) = play(&p, 8);
    assert_eq!(out, rows(&[3 * H, 2 * H]));
    assert!(!ended);
    assert!(w.channels[0].is_some() && w.channels[1].is_none() && w.channels[2].is_some());
}

#[test]
fn a_note_replaces_the_voice_in_its_slot() {
    let p = column(vec![note(), note()]);
    let (_, w, _) = play(&p, 6);
    match &w.channels[0] {
        Some(ChannelState { sampler: SamplerState::Basic(s), .. }) => {
            assert_eq!(s.position.at, SEC / 2);
        }
        _ => panic!("the voice plays"),
    }
}

#[test]
fn the_cells_of_the_current_row() {
    let p = project(
        vec![note(), Instruction::Cut, Instruction::Stop, Instruction::Pause, Instruction::NextLoop, Instruction::Empty],
        2,
        3,
        ONE,
    );
    let mut w = PatternState::new(&p, 0);
    let cells = w.curr_instructions(&p);
    assert!(matches!(cells, [Instruction::Note(_), Instruction::Cut]));
    w.row = 2;
    let cells = w.curr_instructions(&p);
    assert!(matches!(cells, [Instruction::NextLoop, Instruction::Empty]));
}

#[test]
fn the_slots_can_be_reached() {
    let p = column(vec![Instruction::Empty]);
    let mut w = PatternState::new(&p, 0);
    w.channels()[0] = Some(ChannelState::new(&p, 0, 0, 60 * ONE));
    assert!(w.channels[0].is_some());
    let (mut left, mut right) = (vec![0; 4], vec![0; 4]);
    w.render(&p, &mut left, &mut right, window(4, 4));
    assert_eq!(left, vec![H; 4]);
}

#[test]
fn one_instruction_on_one_slot() {
    let p = column(vec![Instruction::Empty]);
    let voice = || Some(ChannelState::new(&p, 0, 0, 60 * ONE));
    assert!(obey(&p, None, &Instruction::Empty).is_none());
    assert!(obey(&p, voice(), &Instruction::Empty).is_some());
    assert!(obey(&p, voice(), &Instruction::Cut).is_none());
    assert!(obey(&p, None, &note()).is_some());
    assert!(obey(&p, voice(), &Instruction::Stop).map(|c| c.stopping) == Some(true));
    assert!(obey(&p, voice(), &Instruction::Pause).map(|c| c.paused) == Some(true));
    assert!(obey(&p, voice(), &Instruction::Fade(SEC)).map(|c| c.fading.is_some()) == Some(true));
    assert!(obey(&p, voice(), &Instruction::NextLoop).is_none());
    let (mut left, mut right) = (vec![0; 4], vec![0; 4]);
    let stopped = obey(&p, voice(), &Instruction::Stop);
    assert!(render_slot(&p, stopped, &mut left, &mut right, window(4, 4)).is_none());
    assert_eq!(left, vec![H; 4]);
    assert!(render_slot(&p, voice(), &mut left, &mut right, window(4, 4)).is_some());
    assert_eq!(left, vec![ONE; 4]);
    assert!(render_slot(&p, None, &mut left, &mut right, window(4, 4)).is_none());
    assert_eq!(left, vec![ONE; 4]);
}

#[test]
fn the_pieces_sum_to_the_time_or_to_what_the_pattern_has_left() {
    let p = project(vec![Instruction::Empty, Instruction::Empty, Instruction::Empty], 1, 3, 7 * ONE);
    let row = row_segment_of(0, 7 * ONE);
    for (start_row, inner) in [(0usize, 0), (1, ONE / 3), (2, ONE - 1), (2, ONE)] {
        let mut w = PatternState::new(&p, 0);
        w.row = start_row;
        w.inner_position = inner;
        let left_over = row_segment_of(inner, 7 * ONE) + (2 - start_row as i64) * row;
        for secs in [0, 1, row - 1, row, row + 1, 2 * row + 5, 3 * row, 10 * SEC] {
            let total: i64 = w.subsegs(&p, secs).iter().sum();
            assert_eq!(total, secs.min(left_over));
        }
    }
}
