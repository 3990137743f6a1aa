use condemus::curves::{cos_of_turns, isqrt, pitch_ratio_of, pitched_rate_of};
use condemus::fixed::ONE;

#[test]
fn cosine_at_the_quarters() {
    assert_eq!(cos_of_turns(0), ONE);
    assert_eq!(cos_of_turns(16_384), 0);
    assert_eq!(cos_of_turns(32_768), -ONE);
    assert_eq!(cos_of_turns(49_152), 0);
    assert_eq!(cos_of_turns(65_536), ONE);
    assert_eq!(cos_of_turns(65_536 * 7 + 32_768), -ONE);
}

#[test]
fn cosine_is_close_to_the_real_one() {
    for p in 0..65_536u64 {
        let real = (p as f64 / 65_536.0 * std::f64::consts::TAU).cos();
        let ours = cos_of_turns(p) as f64 / ONE as f64;
        assert!((real - ours).abs() < 0.002, "phase {}: {} against {}", p, ours, real);
    }
}

#[test]
fn cosine_is_opposite_half_a_turn_on() {
    for p in (0..200_000u64).step_by(37) {
        assert_eq!(cos_of_turns(p + 32_768), -cos_of_turns(p));
    }
}

#[test]
fn cosine_mirrors_about_the_half_turn() {
    for p in 0..=32_768u64 {
        assert_eq!(cos_of_turns(p), cos_of_turns(65_536 - p));
    }
}

#[test]
fn square_roots_are_rounded_down() {
    assert_eq!(isqrt(0), 0);
    assert_eq!(isqrt(1), 1);
    assert_eq!(isqrt(3), 1);
    assert_eq!(isqrt(4), 2);
    assert_eq!(isqrt(99), 9);
    assert_eq!(isqrt(100), 10);
    assert_eq!(isqrt(1 << 32), 1 << 16);
    assert_eq!(isqrt(u64::MAX), u32::MAX);
}

#[test]
fn octaves_double_and_halve() {
    assert_eq!(pitch_ratio_of(0), ONE as u64);
    assert_eq!(pitch_ratio_of(12 * ONE as i64), 2 * ONE as u64);
    assert_eq!(pitch_ratio_of(24 * ONE as i64), 4 * ONE as u64);
    assert_eq!(pitch_ratio_of(-12 * ONE as i64), ONE as u64 / 2);
    assert_eq!(pitch_ratio_of(-24 * ONE as i64), ONE as u64 / 4);
}

#[test]
fn semitones_follow_equal_temperament() {
    for k in -30i64..=30 {
        let real = 2f64.powf(k as f64 / 12.0);
        let ours = pitch_ratio_of(k * ONE as i64) as f64 / ONE as f64;
        assert!((real / ours - 1.0).abs() < 1e-4, "{} semitones: {} against {}", k, ours, real);
    }
    assert_eq!(pitch_ratio_of(7 * ONE as i64), 98_193);
}

#[test]
fn fractions_of_semitones_lie_between_their_neighbours() {
    for cents in 0..1200i64 {
        let d = cents * ONE as i64 / 100;
        let real = 2f64.powf(cents as f64 / 1200.0);
        let ours = pitch_ratio_of(d) as f64 / ONE as f64;
        assert!((real / ours - 1.0).abs() < 5e-4, "{} cents", cents);
    }
    assert!(pitch_ratio_of(ONE as i64 / 2) > pitch_ratio_of(0));
    assert!(pitch_ratio_of(ONE as i64 / 2) < pitch_ratio_of(ONE as i64));
}

#[test]
fn far_shifts_count_as_sixteen_octaves() {
    assert_eq!(pitch_ratio_of(i64::MAX), pitch_ratio_of(16 * 12 * ONE as i64 - 1));
    assert_eq!(pitch_ratio_of(i64::MIN), 1);
    assert_eq!(pitch_ratio_of(-16 * 12 * ONE as i64), 1);
}

#[test]
fn rates_scale_with_pitch() {
    assert_eq!(pitched_rate_of(44_100, 0), 44_100);
    assert_eq!(pitched_rate_of(10, 0), 10);
    assert_eq!(pitched_rate_of(44_100, 12 * ONE as i64), 88_200);
    assert_eq!(pitched_rate_of(44_100, -12 * ONE as i64), 22_050);
    assert_eq!(pitched_rate_of(u32::MAX, 12 * ONE as i64), u32::MAX);
    assert_eq!(pitched_rate_of(0, 12 * ONE as i64), 0);
}
