use condemus::common::instrument::{
    BasicMode, GranulatingMode, Instrument, InstrumentMode, SmoothingMode,
};
use condemus::common::position::{LoopDef, LoopSection, Position, Subseg};
use condemus::common::project::Project;
use condemus::common::sample::Sample;
use condemus::fixed::{ONE, TICKS_PER_SEC};
use condemus::renderer::samplers::{
    mix_subseg, plan_subseg, BasicSamplerState, GranulatingSamplerState, GranuleState,
    SamplerState,
};
use condemus::resample::Resampler;
use condemus::stream::AudioBufferSlice;

const SEC: i64 = TICKS_PER_SEC as i64;

fn window(len: usize, rate: u32) -> AudioBufferSlice {
    AudioBufferSlice { start: 0, end: len, rate, resampler: Resampler::Linear }
}

fn plain(audio: Vec<i32>, baserate: u32, start: i64, loops: Vec<LoopDef>) -> Project {
    Project {
        samples: vec![Sample { audio, baserate }],
        instruments: vec![Instrument {
            sample: 0,
            volume: ONE,
            pan: 0,
            base_pitch: 0,
            mode: InstrumentMode::Basic(BasicMode { start, loops }),
        }],
        patterns: vec![],
        tracks: vec![],
    }
}

fn granular(audio: Vec<i32>, baserate: u32, def: GranulatingMode) -> Project {
    Project {
        samples: vec![Sample { audio, baserate }],
        instruments: vec![Instrument {
            sample: 0,
            volume: ONE,
            pan: 0,
            base_pitch: 0,
            mode: InstrumentMode::Granulating(def),
        }],
        patterns: vec![],
        tracks: vec![],
    }
}

#[test]
fn a_new_sampler_stands_at_the_start_of_its_mode() {
    let p = plain(vec![1, 2, 3, 4], 4, SEC / 2, vec![]);
    let s = BasicSamplerState::new(&p, 0, 0);
    assert_eq!((s.position.at, s.position.reversing, s.curr_loop), (SEC / 2, false, 0));
    assert_eq!((s.instrument, s.sample), (0, 0));
}

#[test]
fn a_sample_without_a_loop_plays_once() {
    let p = plain(vec![10, 20, 30, 40], 4, 0, vec![]);
    let mut s = BasicSamplerState::new(&p, 0, 0);
    let mut out = vec![0; 8];
    s.render(&p, &mut out, window(8, 4), ONE);
    assert_eq!(out, vec![10, 20, 30, 40, 0, 0, 0, 0]);
    assert_eq!(s.position.at, 2 * SEC);
    assert!(SamplerState::Basic(s).finished(&p));
}

#[test]
fn a_sampler_goes_on_where_the_last_block_ended() {
    let p = plain(vec![10, 20, 30, 40], 4, 0, vec![]);
    let mut s = BasicSamplerState::new(&p, 0, 0);
    let mut out = vec![0; 8];
    let w = window(8, 4);
    s.render(&p, &mut out, w.sub(0, SEC / 2), ONE);
    assert_eq!(s.position.at, SEC / 2);
    assert!(!SamplerState::Basic(s).finished(&p));
    s.render(&p, &mut out, w.sub(SEC / 2, 2 * SEC), ONE);
    assert_eq!(out, vec![10, 20, 30, 40, 0, 0, 0, 0]);
    assert_eq!(s.position.at, 2 * SEC);
}

#[test]
fn playback_starts_where_the_mode_says() {
    let p = plain(vec![10, 20, 30, 40], 4, SEC / 2, vec![]);
    let mut s = BasicSamplerState::new(&p, 0, 0);
    let mut out = vec![0; 4];
    s.render(&p, &mut out, window(4, 4), ONE);
    assert_eq!(out, vec![30, 40, 0, 0]);
}

#[test]
fn a_forward_loop_repeats_its_section() {
    let loops = vec![LoopDef::Forward(LoopSection { from: SEC / 2, to: SEC })];
    let p = plain(vec![10, 20, 30, 40], 4, 0, loops);
    let mut s = BasicSamplerState::new(&p, 0, 0);
    let mut out = vec![0; 10];
    s.render(&p, &mut out, window(10, 4), ONE);
    assert_eq!(out, vec![10, 20, 30, 40, 30, 40, 30, 40, 30, 40]);
    assert_eq!((s.position.at, s.position.reversing), (SEC, false));
}

#[test]
fn a_ping_pong_loop_plays_its_section_to_and_fro() {
    let loops = vec![LoopDef::PingPong(LoopSection { from: SEC / 4, to: SEC })];
    let p = plain(vec![10, 20, 30, 40], 4, 0, loops);
    let mut s = BasicSamplerState::new(&p, 0, 0);
    let mut out = vec![0; 10];
    s.render(&p, &mut out, window(10, 4), ONE);
    assert_eq!(out, vec![10, 20, 30, 40, 40, 30, 20, 20, 30, 40]);
    assert_eq!((s.position.at, s.position.reversing), (SEC, false));
}

#[test]
fn the_gain_scales_the_sample() {
    let p = plain(vec![ONE, -ONE], 2, 0, vec![]);
    let mut s = BasicSamplerState::new(&p, 0, 0);
    let mut out = vec![0; 2];
    s.play(&p, &mut out, window(2, 2), ONE / 4);
    assert_eq!(out, vec![ONE / 4, -ONE / 4]);
    assert_eq!(s.position.at, 0);
}

#[test]
fn next_loop_goes_through_the_loops_and_stops_at_the_last() {
    let a = LoopDef::Forward(LoopSection { from: 0, to: SEC / 2 });
    let b = LoopDef::Forward(LoopSection { from: SEC / 2, to: SEC });
    let p = plain(vec![10, 20, 30, 40], 4, 0, vec![a, b]);
    let mut s = BasicSamplerState::new(&p, 0, 0);
    assert!(matches!(s.this_loop(&p), LoopDef::Forward(x) if x.to == SEC / 2));
    assert!(s.next_loop(&p));
    assert_eq!(s.curr_loop, 1);
    assert!(matches!(s.this_loop(&p), LoopDef::Forward(x) if x.to == SEC));
    assert!(!s.next_loop(&p));
    assert_eq!(s.curr_loop, 1);
    let none = plain(vec![10], 4, 0, vec![]);
    let mut s = BasicSamplerState::new(&none, 0, 0);
    assert!(!s.next_loop(&none));
    assert!(matches!(s.this_loop(&none), LoopDef::Off));
}

#[test]
fn a_run_is_planned_over_the_samples_it_touches() {
    let sample = Sample { audio: vec![0; 8], baserate: 8 };
    let w = window(16, 16);
    let run = Subseg { length: SEC / 2, from: Position { at: SEC / 4, reversing: false } };
    let plan = plan_subseg(&sample, &run, SEC / 4, w);
    assert_eq!((plan.src_from, plan.src_to), (2, 6));
    assert_eq!((plan.dst_from, plan.dst_to), (4, 12));
    let run = Subseg { length: SEC / 2, from: Position { at: SEC, reversing: true } };
    let plan = plan_subseg(&sample, &run, 0, w);
    assert_eq!((plan.src_from, plan.src_to), (4, 8));
    assert_eq!((plan.dst_from, plan.dst_to), (0, 8));
}

#[test]
fn only_the_part_of_a_run_within_the_sample_is_heard() {
    let sample = Sample { audio: vec![0; 8], baserate: 8 };
    let w = window(32, 16);
    let run = Subseg { length: SEC, from: Position { at: SEC / 2, reversing: false } };
    let plan = plan_subseg(&sample, &run, 0, w);
    assert_eq!((plan.src_from, plan.src_to), (4, 8));
    assert_eq!((plan.dst_from, plan.dst_to), (0, 8));
    let run = Subseg { length: SEC, from: Position { at: SEC / 2, reversing: true } };
    let plan = plan_subseg(&sample, &run, 0, w);
    assert_eq!((plan.src_from, plan.src_to), (0, 4));
    assert_eq!((plan.dst_from, plan.dst_to), (0, 8));
    let run = Subseg { length: SEC, from: Position { at: -SEC / 2, reversing: false } };
    let plan = plan_subseg(&sample, &run, 0, w);
    assert_eq!((plan.src_from, plan.src_to), (0, 4));
    assert_eq!((plan.dst_from, plan.dst_to), (8, 16));
    let run = Subseg { length: SEC, from: Position { at: 2 * SEC, reversing: false } };
    let plan = plan_subseg(&sample, &run, 0, w);
    assert_eq!(plan.src_from, plan.src_to);
}

#[test]
fn a_run_shorter_than_a_sample_still_sounds() {
    let sample = Sample { audio: vec![50, 60], baserate: 2 };
    let mut out = vec![0; 10];
    let run = Subseg { length: SEC / 10, from: Position { at: SEC / 2, reversing: false } };
    mix_subseg(&sample, &run, &mut out, window(10, 100), 0, ONE);
    assert_eq!(out, vec![60; 10]);
}

#[test]
fn a_reversed_run_reads_backwards() {
    let sample = Sample { audio: vec![10, 20, 30, 40], baserate: 4 };
    let mut out = vec![0; 4];
    let run = Subseg { length: SEC, from: Position { at: SEC, reversing: true } };
    mix_subseg(&sample, &run, &mut out, window(4, 4), 0, ONE);
    assert_eq!(out, vec![40, 30, 20, 10]);
}

fn grains(smoothing: SmoothingMode) -> GranulatingMode {
    GranulatingMode {
        segment: LoopSection { from: 0, to: SEC },
        interval: SEC / 2,
        gain: ONE / 2,
        smoothing,
    }
}

#[test]
fn granules_start_at_every_interval_and_retire_after_the_segment() {
    let p = granular(vec![ONE; 8], 8, grains(SmoothingMode::Off));
    let mut s = GranulatingSamplerState::new(0, 0);
    assert!(!s.next_loop());
    let w = window(2, 8);
    let mut counts = vec![];
    let mut heard = vec![];
    for _ in 0..10 {
        let mut out = vec![0; 2];
        s.render(&p, &mut out, w, ONE);
        counts.push(s.granules.len());
        heard.push(out[0]);
        assert_eq!(out[0], out[1]);
    }
    assert_eq!(s.age, 10 * SEC / 4);
    assert_eq!(counts, vec![0, 1, 1, 2, 1, 2, 1, 2, 1, 2]);
    let h = ONE / 2;
    assert_eq!(heard, vec![0, h, h, 2 * h, 2 * h, 2 * h, 2 * h, 2 * h, 2 * h, 2 * h]);
}

#[test]
fn a_frame_that_crosses_several_intervals_starts_several_granules() {
    let p = granular(vec![ONE; 8], 8, grains(SmoothingMode::Off));
    let mut s = GranulatingSamplerState::new(0, 0);
    s.begin(&p, 7 * SEC / 4);
    assert_eq!(s.granules.len(), 3);
    assert!(s.granules.iter().all(|g| g.at == 0 && g.age == 0 && g.volume == ONE));
    s.begin(&p, 0);
    assert_eq!(s.granules.len(), 3);
    s.end(&p, SEC / 2);
    assert!(s.granules.iter().all(|g| g.at == SEC / 2 && g.age == SEC / 2));
    s.end(&p, SEC / 2);
    assert!(s.granules.is_empty());
}

#[test]
fn an_interval_of_nothing_starts_no_granule() {
    let mut def = grains(SmoothingMode::Off);
    def.interval = 0;
    let p = granular(vec![ONE; 8], 8, def);
    let mut s = GranulatingSamplerState::new(0, 0);
    s.begin(&p, 10 * SEC);
    assert!(s.granules.is_empty());
    assert_eq!(s.age, 10 * SEC);
}

#[test]
fn granules_advance_in_age_and_place() {
    let mut g = GranuleState::new(5, 7, ONE);
    g.advance(10);
    assert_eq!((g.at, g.age, g.volume), (15, 17, ONE));
    g.advance(i64::MAX);
    assert_eq!((g.at, g.age), (i64::MAX, i64::MAX));
}

#[test]
fn the_envelope_follows_the_smoothing_mode() {
    let at = |age: i64, smoothing: SmoothingMode| {
        GranuleState::new(0, age, ONE).volume(&grains(smoothing))
    };
    assert_eq!(at(SEC / 4, SmoothingMode::Off), ONE);
    assert_eq!(at(0, SmoothingMode::Triangle), 0);
    assert_eq!(at(SEC / 4, SmoothingMode::Triangle), ONE / 2);
    assert_eq!(at(SEC / 2, SmoothingMode::Triangle), ONE);
    assert_eq!(at(3 * SEC / 4, SmoothingMode::Triangle), ONE / 2);
    assert_eq!(at(SEC / 8, SmoothingMode::Linear(ONE / 4)), ONE / 2);
    assert_eq!(at(SEC / 4, SmoothingMode::Linear(ONE / 4)), ONE);
    assert_eq!(at(SEC / 2, SmoothingMode::Linear(ONE / 4)), ONE);
    assert_eq!(at(7 * SEC / 8, SmoothingMode::Linear(ONE / 4)), ONE / 2);
    assert_eq!(at(SEC / 4, SmoothingMode::SquareRoot(ONE)), ONE / 2);
    assert_eq!(at(SEC / 16, SmoothingMode::SquareRoot(ONE / 4)), ONE / 2);
    assert_eq!(at(SEC / 2, SmoothingMode::SquareRoot(ONE / 4)), ONE);
    assert_eq!(at(0, SmoothingMode::Cosine(ONE)), 0);
    let c = at(SEC / 2, SmoothingMode::Cosine(ONE)) as f64 / ONE as f64;
    assert!((c - std::f64::consts::FRAC_PI_4.cos()).abs() < 0.002);
    for width in [-ONE, 0] {
        assert_eq!(at(SEC / 8, SmoothingMode::Linear(width)), ONE);
        assert_eq!(at(SEC / 8, SmoothingMode::SquareRoot(width)), ONE);
        assert_eq!(at(SEC / 8, SmoothingMode::Cosine(width)), ONE);
    }
}

#[test]
fn the_envelope_at_a_place_of_the_life() {
    assert_eq!(SmoothingMode::Triangle.factor_at(ONE / 4), ONE / 2);
    assert_eq!(SmoothingMode::Triangle.factor_at(ONE), 0);
    assert_eq!(SmoothingMode::Off.factor_at(0), ONE);
    assert_eq!(SmoothingMode::Linear(ONE / 2).factor_at(ONE / 4), ONE / 2);
    for pos in 0..=64 {
        let position = pos * ONE / 64;
        let dist = (pos.min(64 - pos)) as f64 / 64.0;
        for w in [0.25f64, 0.5, 1.0] {
            let width = (w * ONE as f64) as i32;
            let root = SmoothingMode::SquareRoot(width).factor_at(position) as f64 / ONE as f64;
            assert!((root - (dist / w).sqrt().min(1.0)).abs() < 1e-3);
            let line = SmoothingMode::Linear(width).factor_at(position) as f64 / ONE as f64;
            assert!((line - (dist / w).min(1.0)).abs() < 1e-4);
            let cosine = SmoothingMode::Cosine(width).factor_at(position) as f64 / ONE as f64;
            let real = ((1.0 - dist) * std::f64::consts::PI / w / 2.0).cos().min(1.0);
            assert!((cosine - real).abs() < 0.003, "{} {} {} {}", pos, w, cosine, real);
        }
    }
}

#[test]
fn a_granule_plays_at_the_gains_multiplied() {
    let sample = Sample { audio: vec![ONE; 8], baserate: 8 };
    let def = grains(SmoothingMode::Triangle);
    let g = GranuleState::new(0, SEC / 4, ONE);
    let mut out = vec![0; 4];
    g.render(&sample, &def, &mut out, window(4, 8), ONE / 2);
    assert_eq!(out, vec![ONE / 8; 4]);
}

#[test]
fn samplers_of_either_kind() {
    let p = plain(vec![10, 20], 2, 0, vec![LoopDef::Forward(LoopSection { from: 0, to: SEC })]);
    let s = match &p.instruments[0].mode {
        m => m.new_sampler(&p, 0, 0),
    };
    assert!(matches!(s, SamplerState::Basic(_)));
    assert!(!s.finished(&p));
    let q = granular(vec![ONE; 8], 8, grains(SmoothingMode::Off));
    let mut s = q.instruments[0].mode.new_sampler(&q, 0, 0);
    assert!(matches!(s, SamplerState::Granulating(_)));
    assert!(!s.next_loop(&q));
    assert!(!s.finished(&q));
    let mut out = vec![0; 8];
    s.render(&q, &mut out, window(8, 8), ONE);
    assert_eq!(out, vec![ONE; 8]);
    match &s {
        SamplerState::Granulating(state) => assert!(state.granules.is_empty()),
        SamplerState::Basic(_) => panic!("granular playback expected"),
    }
}

#[test]
fn moving_on_twice_leads_where_moving_on_once_leads() {
    let loops = vec![
        LoopDef::Forward(LoopSection { from: SEC / 4, to: SEC }),
        LoopDef::PingPong(LoopSection { from: SEC / 4, to: SEC }),
        LoopDef::Off,
    ];
    let p = plain(vec![0; 4], 4, SEC / 8, loops);
    for curr_loop in 0..4 {
        for (first, second) in [(0, 5), (5, 0), (SEC / 8, SEC), (7 * SEC / 8, 1), (3 * SEC, 7 * SEC / 3), (1, 1)] {
            let mut once = BasicSamplerState::new(&p, 0, 0);
            once.curr_loop = curr_loop;
            let mut twice = once;
            once.advance(&p, first + second);
            twice.advance(&p, first);
            twice.advance(&p, second);
            assert_eq!(
                (once.position.at, once.position.reversing),
                (twice.position.at, twice.position.reversing),
                "loop {} after {} and {}",
                curr_loop,
                first,
                second
            );
        }
    }
}
