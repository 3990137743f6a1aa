use condemus::common::instrument::{BasicMode, Instrument, InstrumentMode};
use condemus::common::pattern::{Effect, EffectInstance, NoteInstruction, Slide, Vibration};
use condemus::common::position::{LoopDef, LoopSection};
use condemus::common::project::Project;
use condemus::common::sample::Sample;
use condemus::fixed::{ONE, TICKS_PER_SEC};
use condemus::renderer::channel::{side_gain_of, ChannelState, Fade};
use condemus::renderer::samplers::SamplerState;
use condemus::resample::Resampler;
use condemus::stream::AudioBufferSlice;

const SEC: i64 = TICKS_PER_SEC as i64;

fn window(len: usize, rate: u32) -> AudioBufferSlice {
    AudioBufferSlice { start: 0, end: len, rate, resampler: Resampler::Linear }
}

fn project(audio: Vec<i32>, baserate: u32, loops: Vec<LoopDef>) -> Project {
    Project {
        samples: vec![Sample { audio: vec![1], baserate: 1 }, Sample { audio, baserate }],
        instruments: vec![Instrument {
            sample: 1,
            volume: ONE,
            pan: 0,
            base_pitch: 60 * ONE,
            mode: InstrumentMode::Basic(BasicMode { start: 0, loops }),
        }],
        patterns: vec![],
        tracks: vec![],
    }
}

fn steady() -> Project {
    project(vec![ONE; 4], 4, vec![LoopDef::Forward(LoopSection { from: 0, to: SEC })])
}

fn note(pitch: i32, pan: i32, volume: i32, effects: Vec<EffectInstance>) -> NoteInstruction {
    NoteInstruction { instrument: 0, pitch, pan, volume, effects }
}

fn playhead(channel: &ChannelState) -> i64 {
    match &channel.sampler {
        SamplerState::Basic(s) => s.position.at,
        SamplerState::Granulating(_) => panic!("plain playback expected"),
    }
}

#[test]
fn a_note_starts_a_voice_with_its_values() {
    let p = steady();
    let vib = EffectInstance {
        length: SEC,
        effect: Effect::Vibrato(Vibration { speed: ONE, depth: ONE }),
    };
    let c = ChannelState::from_instruction(&p, &note(61 * ONE, -ONE / 2, ONE / 3, vec![vib, vib]));
    assert_eq!((c.volume, c.panning, c.pitch), (ONE / 3, -ONE / 2, 61 * ONE));
    assert_eq!((c.instrument, c.sample), (0, 1));
    assert!(!c.paused && !c.stopping && c.fading.is_none());
    assert_eq!(c.effects.len(), 2);
    assert!(c.effects.iter().all(|e| e.pos == 0 && e.def.length == SEC));
    match &c.sampler {
        SamplerState::Basic(s) => {
            assert_eq!((s.instrument, s.sample, s.curr_loop, s.position.at), (0, 1, 0, 0));
        }
        SamplerState::Granulating(_) => panic!("plain playback expected"),
    }
}

#[test]
fn a_plain_voice_is_at_full_volume_in_the_middle() {
    let p = steady();
    let c = ChannelState::new(&p, 1, 0, 64 * ONE);
    assert_eq!((c.volume, c.panning, c.pitch), (ONE, 0, 64 * ONE));
    assert_eq!((c.instrument, c.sample), (0, 1));
    assert!(c.effects.is_empty() && !c.paused);
}

#[test]
fn panning_shares_the_volume_between_the_sides() {
    let p = steady();
    for (pan, l, r) in [(-ONE, ONE, 0), (ONE, 0, ONE), (0, ONE / 2, ONE / 2), (ONE / 2, ONE / 4, 3 * ONE / 4)] {
        let mut c = ChannelState::from_instruction(&p, &note(60 * ONE, pan, ONE, vec![]));
        let mut left = vec![0; 4];
        let mut right = vec![0; 4];
        c.render(&p, &mut left, &mut right, window(4, 4));
        assert_eq!(left, vec![l; 4]);
        assert_eq!(right, vec![r; 4]);
        assert_eq!(side_gain_of(ONE, pan, false), l);
        assert_eq!(side_gain_of(ONE, pan, true), r);
    }
}

#[test]
fn both_sides_hear_the_same_stretch_of_the_sample() {
    let p = project(vec![100, 200, 300, 400], 4, vec![]);
    let mut c = ChannelState::from_instruction(&p, &note(60 * ONE, 0, 2 * ONE, vec![]));
    let mut left = vec![0; 2];
    let mut right = vec![0; 2];
    c.render(&p, &mut left, &mut right, window(2, 4));
    assert_eq!(left, vec![100, 200]);
    assert_eq!(right, vec![100, 200]);
    assert_eq!(playhead(&c), SEC / 2);
    c.render(&p, &mut left, &mut right, window(2, 4));
    assert_eq!(left, vec![400, 600]);
    assert_eq!(right, left);
}

#[test]
fn the_pitch_scales_the_rate_of_the_window() {
    let ramp: Vec<i32> = (0..8).map(|i| i * 100).collect();
    let p = project(ramp, 8, vec![]);
    let mut c = ChannelState::from_instruction(&p, &note(72 * ONE, -ONE, ONE, vec![]));
    let mut left = vec![0; 8];
    let mut right = vec![0; 8];
    c.render(&p, &mut left, &mut right, window(8, 8));
    assert_eq!(left, vec![0, 50, 100, 150, 200, 250, 300, 300]);
    assert_eq!(right, vec![0; 8]);
    assert_eq!(playhead(&c), SEC / 2);

    let mut c = ChannelState::from_instruction(&p, &note(48 * ONE, -ONE, ONE, vec![]));
    let mut left = vec![0; 8];
    c.render(&p, &mut left, &mut right, window(8, 8));
    assert_eq!(left, vec![0, 200, 400, 600, 0, 0, 0, 0]);
    assert_eq!(playhead(&c), 2 * SEC);
}

#[test]
fn a_paused_voice_holds() {
    let p = steady();
    let vib = EffectInstance {
        length: SEC,
        effect: Effect::Vibrato(Vibration { speed: ONE, depth: ONE }),
    };
    let mut c = ChannelState::from_instruction(&p, &note(60 * ONE, 0, ONE, vec![vib]));
    let mut left = vec![0; 4];
    let mut right = vec![0; 4];
    c.render(&p, &mut left, &mut right, window(2, 4));
    let (at, pitch, pos) = (playhead(&c), c.pitch, c.effects[0].pos);
    c.toggle_pause();
    assert!(c.paused);
    let before = left.clone();
    c.render(&p, &mut left, &mut right, window(4, 4));
    assert_eq!(left, before);
    assert_eq!((playhead(&c), c.pitch, c.effects[0].pos), (at, pitch, pos));
    c.toggle_pause();
    assert!(!c.paused);
    c.render(&p, &mut left, &mut right, window(2, 4));
    assert_eq!(playhead(&c), at + SEC / 2);
}

#[test]
fn a_fade_takes_the_volume_down_evenly() {
    let p = steady();
    let mut c = ChannelState::from_instruction(&p, &note(60 * ONE, -ONE, ONE, vec![]));
    c.fade(SEC);
    assert!(matches!(c.fading, Some(Fade { length, pos: 0 }) if length == SEC));
    let mut heard = vec![];
    for _ in 0..4 {
        assert!(!c.finished(&p));
        let mut left = vec![0; 1];
        let mut right = vec![0; 1];
        c.render(&p, &mut left, &mut right, window(1, 4));
        heard.push(left[0]);
    }
    assert_eq!(heard, vec![ONE, 3 * ONE / 4, ONE / 2, ONE / 4]);
    assert_eq!(c.volume, ONE);
    assert!(c.finished(&p));
}

#[test]
fn a_fade_without_length_is_over_at_once() {
    let p = steady();
    let mut c = ChannelState::from_instruction(&p, &note(60 * ONE, 0, ONE, vec![]));
    c.fade(0);
    assert!(c.finished(&p));
    assert_eq!(Fade { length: 0, pos: 0 }.gain(), 0);
    assert_eq!(Fade { length: SEC, pos: 0 }.gain(), ONE);
    assert_eq!(Fade { length: SEC, pos: SEC / 4 }.gain(), 3 * ONE / 4);
    assert_eq!(Fade { length: SEC, pos: 2 * SEC }.gain(), 0);
    assert_eq!(Fade { length: SEC, pos: -SEC }.gain(), ONE);
}

#[test]
fn a_stopped_voice_is_over() {
    let p = steady();
    let mut c = ChannelState::from_instruction(&p, &note(60 * ONE, 0, ONE, vec![]));
    assert!(!c.finished(&p));
    c.stop();
    assert!(c.stopping);
    assert!(c.finished(&p));
}

#[test]
fn a_voice_is_over_when_its_sample_has_run_out() {
    let p = project(vec![ONE; 4], 4, vec![]);
    let mut c = ChannelState::from_instruction(&p, &note(60 * ONE, 0, ONE, vec![]));
    let mut left = vec![0; 3];
    let mut right = vec![0; 3];
    c.render(&p, &mut left, &mut right, window(3, 4));
    assert!(!c.finished(&p));
    c.render(&p, &mut left, &mut right, window(1, 4));
    assert!(c.finished(&p));
    let q = steady();
    let mut c = ChannelState::from_instruction(&q, &note(60 * ONE, 0, ONE, vec![]));
    c.render(&q, &mut left, &mut right, window(3, 4));
    c.render(&q, &mut left, &mut right, window(3, 4));
    assert!(!c.finished(&q));
}

#[test]
fn effects_act_before_the_sampler_and_expire_after_it() {
    let p = steady();
    let trem = EffectInstance {
        length: SEC / 2,
        effect: Effect::Tremolo(Vibration { speed: ONE, depth: ONE / 2 }),
    };
    let mut c = ChannelState::from_instruction(&p, &note(60 * ONE, -ONE, ONE, vec![trem]));
    let mut left = vec![0; 1];
    let mut right = vec![0; 1];
    c.render(&p, &mut left, &mut right, window(1, 4));
    assert_eq!(c.volume, 3 * ONE / 2);
    assert_eq!(left, vec![3 * ONE / 2]);
    assert_eq!(c.effects.len(), 1);
    assert_eq!(c.effects[0].pos, SEC / 4);
    c.render(&p, &mut left, &mut right, window(1, 4));
    assert_eq!(c.volume, 3 * ONE / 2);
    assert!(c.effects.is_empty());
    c.render(&p, &mut left, &mut right, window(1, 4));
    assert_eq!(c.volume, 3 * ONE / 2);
}

#[test]
fn effects_are_added_applied_and_advanced() {
    let p = steady();
    let slide = EffectInstance {
        length: SEC,
        effect: Effect::Portamento(Slide { length: SEC, amount: 4 * ONE }),
    };
    let short = EffectInstance {
        length: SEC / 4,
        effect: Effect::Panbrello(Vibration { speed: ONE, depth: ONE / 4 }),
    };
    let mut c = ChannelState::from_instruction(&p, &note(60 * ONE, 0, ONE, vec![slide]));
    c.add_effects(&note(0, 0, 0, vec![short, slide]));
    assert_eq!(c.effects.len(), 3);
    c.apply_effects(SEC / 4);
    assert_eq!((c.volume, c.panning, c.pitch), (ONE, ONE / 4, 62 * ONE));
    c.advance_effects(SEC / 4);
    assert_eq!(c.effects.len(), 2);
    assert!(c.effects.iter().all(|e| e.pos == SEC / 4));
    assert!(c.effects.iter().all(|e| matches!(e.def.effect, Effect::Portamento(_))));
    c.advance_effects(SEC);
    assert!(c.effects.is_empty());
}

#[test]
fn a_vibrato_without_depth_never_moves_the_pitch() {
    let p = steady();
    let flat = EffectInstance {
        length: 50 * SEC,
        effect: Effect::Vibrato(Vibration { speed: 5 * ONE, depth: 0 }),
    };
    let mut c = ChannelState::from_instruction(&p, &note(63 * ONE, 0, ONE, vec![flat, flat]));
    for len in [1usize, 3, 64, 7, 512, 2] {
        let mut left = vec![0; len];
        let mut right = vec![0; len];
        c.render(&p, &mut left, &mut right, window(len, 44_100));
        assert_eq!(c.pitch, 63 * ONE);
        assert_eq!((c.volume, c.panning), (ONE, 0));
    }
}

#[test]
fn a_voice_goes_through_the_loops_of_its_sampler() {
    let a = LoopDef::Forward(LoopSection { from: 0, to: SEC / 2 });
    let b = LoopDef::PingPong(LoopSection { from: SEC / 2, to: SEC });
    let p = project(vec![ONE; 4], 4, vec![a, b]);
    let mut c = ChannelState::from_instruction(&p, &note(60 * ONE, 0, ONE, vec![]));
    assert!(c.next_loop(&p));
    assert!(!c.next_loop(&p));
    match &c.sampler {
        SamplerState::Basic(s) => assert_eq!(s.curr_loop, 1),
        SamplerState::Granulating(_) => panic!("plain playback expected"),
    }
}
