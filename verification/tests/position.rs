use condemus::common::position::{
    LoopDef, LoopSection, LoopType, Position, Subseg, NO_NEXT_START,
};

fn fwd(at: i64) -> Position {
    Position { at, reversing: false }
}

fn rev(at: i64) -> Position {
    Position { at, reversing: true }
}

fn section() -> LoopSection {
    LoopSection { from: 100, to: 300 }
}

fn total(segs: &[Subseg]) -> i64 {
    segs.iter().map(|s| s.length).sum()
}

#[test]
fn a_section_is_as_long_as_its_ends_are_apart() {
    assert_eq!(section().len(), 200);
    assert_eq!(LoopSection { from: i64::MIN, to: i64::MAX }.len(), i64::MAX);
}

#[test]
fn after_moves_along_the_direction() {
    assert_eq!(fwd(10).after(5).at, 15);
    assert!(!fwd(10).after(5).reversing);
    assert_eq!(rev(10).after(5).at, 5);
    assert!(rev(10).after(5).reversing);
    assert_eq!(rev(10).after(25).at, -15);
    assert_eq!(fwd(i64::MAX).after(1).at, i64::MAX);
    assert_eq!(rev(i64::MIN).after(1).at, i64::MIN);
}

#[test]
fn bounce_flips_and_reflects() {
    let b = fwd(110).bounce(10);
    assert!(b.reversing);
    assert_eq!(b.at, 90);
    let b = rev(90).bounce(10);
    assert!(!b.reversing);
    assert_eq!(b.at, 110);
    assert_eq!(fwd(i64::MIN).bounce(i64::MAX).at, i64::MIN);
}

#[test]
fn a_run_ends_after_its_length() {
    let s = Subseg { length: 7, from: fwd(3) };
    assert_eq!(s.len(), 7);
    assert_eq!(s.end().at, 10);
    let s = Subseg { length: 7, from: rev(3) };
    assert_eq!(s.end().at, -4);
    assert!(s.end().reversing);
}

#[test]
fn next_stop_is_the_boundary_ahead() {
    assert_eq!(LoopDef::Off.next_stop(fwd(5)), None);
    assert_eq!(LoopDef::Off.next_stop(rev(5)), None);
    for def in [LoopDef::Forward(section()), LoopDef::PingPong(section())] {
        assert_eq!(def.next_stop(fwd(150)), Some(300));
        assert_eq!(def.next_stop(fwd(0)), Some(300));
        assert_eq!(def.next_stop(rev(150)), Some(100));
        assert_eq!(def.next_stop(rev(100)), Some(100));
        assert_eq!(def.next_stop(rev(99)), Some(0));
    }
}

#[test]
fn next_start_of_a_forward_loop_jumps_to_the_other_end() {
    let def = LoopDef::Forward(section());
    let p = def.next_start(fwd(300)).unwrap();
    assert_eq!((p.at, p.reversing), (100, false));
    let p = def.next_start(rev(100)).unwrap();
    assert_eq!((p.at, p.reversing), (300, true));
    let p = def.next_start(rev(50)).unwrap();
    assert_eq!((p.at, p.reversing), (0, false));
}

#[test]
fn next_start_of_a_ping_pong_loop_turns_round() {
    let def = LoopDef::PingPong(section());
    let p = def.next_start(fwd(300)).unwrap();
    assert_eq!((p.at, p.reversing), (300, true));
    let p = def.next_start(rev(100)).unwrap();
    assert_eq!((p.at, p.reversing), (100, false));
    let p = def.next_start(rev(50)).unwrap();
    assert_eq!((p.at, p.reversing), (0, false));
}

#[test]
fn next_start_without_a_loop_is_an_error() {
    let r = LoopDef::Off.next_start(fwd(0));
    assert_eq!(r.err(), Some(NO_NEXT_START));
    assert!(LoopDef::Forward(section()).next_start(fwd(0)).is_ok());
    assert!(LoopDef::PingPong(section()).next_start(fwd(0)).is_ok());
}

#[test]
fn loop_types_name_the_kind() {
    assert_eq!(LoopDef::Off.loop_type(), LoopType::Off);
    assert_eq!(LoopDef::Forward(section()).loop_type(), LoopType::Forward);
    assert_eq!(LoopDef::PingPong(section()).loop_type(), LoopType::PingPong);
}

#[test]
fn subsegs_without_a_loop_are_one_run() {
    let segs = LoopDef::Off.subsegs(fwd(40), 1000);
    assert_eq!(segs.len(), 1);
    assert_eq!(segs[0].length, 1000);
    assert_eq!(segs[0].from.at, 40);
}

#[test]
fn subsegs_of_no_time_are_none() {
    assert!(LoopDef::Off.subsegs(fwd(40), 0).is_empty());
    assert!(LoopDef::Forward(section()).subsegs(fwd(40), 0).is_empty());
    assert!(LoopDef::PingPong(section()).subsegs(fwd(40), -5).is_empty());
}

#[test]
fn subsegs_sum_to_the_time_asked_for() {
    let starts = [fwd(0), fwd(100), fwd(250), fwd(300), fwd(450), rev(300), rev(100), rev(99), rev(0)];
    for def in [LoopDef::Off, LoopDef::Forward(section()), LoopDef::PingPong(section())] {
        for from in starts {
            for t in [1i64, 50, 199, 200, 201, 1000, 12_345] {
                let segs = def.subsegs(from, t);
                assert_eq!(total(&segs), t);
                assert!(segs.iter().all(|s| s.length >= 0));
                assert_eq!(segs[0].from.at, from.at);
                assert_eq!(segs[0].from.reversing, from.reversing);
            }
        }
    }
}

#[test]
fn subsegs_stop_at_every_boundary() {
    let def = LoopDef::Forward(section());
    let segs = def.subsegs(fwd(0), 750);
    let got: Vec<(i64, bool, i64)> =
        segs.iter().map(|s| (s.from.at, s.from.reversing, s.length)).collect();
    assert_eq!(got, vec![(0, false, 300), (100, false, 200), (100, false, 200), (100, false, 50)]);
}

#[test]
fn playing_a_forward_loop_through_its_end_wraps_to_its_start() {
    let def = LoopDef::Forward(section());
    let segs = def.subsegs(fwd(250), 51);
    assert_eq!(segs.len(), 2);
    assert_eq!(segs[0].length, 50);
    assert_eq!((segs[1].from.at, segs[1].from.reversing), (100, false));
    assert_eq!(segs[1].length, 1);
}

#[test]
fn playing_a_ping_pong_loop_turns_at_both_ends() {
    let def = LoopDef::PingPong(section());
    let segs = def.subsegs(fwd(250), 50 + 200 + 30);
    assert_eq!(segs.len(), 3);
    assert_eq!((segs[1].from.at, segs[1].from.reversing), (300, true));
    assert_eq!(segs[1].length, 200);
    assert_eq!((segs[2].from.at, segs[2].from.reversing), (100, false));
    assert_eq!(segs[2].end().at, 130);
}

#[test]
fn a_playhead_on_its_stop_resumes_at_once() {
    let segs = LoopDef::Forward(section()).subsegs(fwd(300), 10);
    assert_eq!(segs.len(), 2);
    assert_eq!(segs[0].length, 0);
    assert_eq!((segs[1].from.at, segs[1].length), (100, 10));
}

#[test]
fn a_playhead_that_reverses_below_the_section_restarts_at_zero() {
    let segs = LoopDef::PingPong(section()).subsegs(rev(60), 100);
    let got: Vec<(i64, bool, i64)> =
        segs.iter().map(|s| (s.from.at, s.from.reversing, s.length)).collect();
    assert_eq!(got, vec![(60, true, 60), (0, false, 40)]);
}
