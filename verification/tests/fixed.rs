use condemus::fixed::{
    clamp_i32, clamp_i64, duration_of, sample_count, sample_index, scale_level, ONE,
    TICKS_PER_SEC,
};

const SEC: i64 = TICKS_PER_SEC as i64;

#[test]
fn common_rates_divide_the_second() {
    for rate in [8_000u64, 11_025, 22_050, 32_000, 44_100, 48_000, 96_000, 192_000] {
        assert_eq!(TICKS_PER_SEC % rate, 0, "rate {}", rate);
    }
}

#[test]
fn clamps_stop_at_the_bounds() {
    assert_eq!(clamp_i64(i64::MAX as i128 + 5), i64::MAX);
    assert_eq!(clamp_i64(i64::MIN as i128 - 5), i64::MIN);
    assert_eq!(clamp_i64(-42), -42);
    assert_eq!(clamp_i32(i32::MAX as i128 + 1), i32::MAX);
    assert_eq!(clamp_i32(i32::MIN as i128 - 1), i32::MIN);
    assert_eq!(clamp_i32(17), 17);
}

#[test]
fn levels_multiply_and_round_towards_zero() {
    assert_eq!(scale_level(ONE, ONE), ONE);
    assert_eq!(scale_level(ONE / 2, ONE / 2), ONE / 4);
    assert_eq!(scale_level(3, ONE / 2), 1);
    assert_eq!(scale_level(-3, ONE / 2), -1);
    assert_eq!(scale_level(-ONE, ONE / 4), -ONE / 4);
    assert_eq!(scale_level(0, 12345), 0);
    assert_eq!(scale_level(i32::MAX, i32::MAX), i32::MAX);
    assert_eq!(scale_level(i32::MIN, i32::MAX), i32::MIN);
}

#[test]
fn the_index_of_a_time_is_rounded_down() {
    assert_eq!(sample_index(0, 10, 100), 0);
    assert_eq!(sample_index(SEC, 10, 100), 10);
    assert_eq!(sample_index(SEC - 1, 10, 100), 9);
    assert_eq!(sample_index(SEC / 10, 10, 100), 1);
    assert_eq!(sample_index(SEC / 10 - 1, 10, 100), 0);
    assert_eq!(sample_index(-SEC, 10, 100), 0);
    assert_eq!(sample_index(SEC, 0, 100), 0);
    assert_eq!(sample_index(50 * SEC, 10, 100), 100);
    assert_eq!(sample_index(i64::MAX, u32::MAX, usize::MAX), {
        let q = (i64::MAX as u128 * u32::MAX as u128) / TICKS_PER_SEC as u128;
        if q > usize::MAX as u128 { usize::MAX } else { q as usize }
    });
}

#[test]
fn the_count_of_samples_before_a_time_is_rounded_up() {
    assert_eq!(sample_count(0, 10, 100), 0);
    assert_eq!(sample_count(1, 10, 100), 1);
    assert_eq!(sample_count(SEC / 10, 10, 100), 1);
    assert_eq!(sample_count(SEC / 10 + 1, 10, 100), 2);
    assert_eq!(sample_count(SEC, 10, 100), 10);
    assert_eq!(sample_count(SEC, 10, 4), 4);
    assert_eq!(sample_count(-5, 10, 4), 0);
}

#[test]
fn the_time_of_samples_is_the_least_that_holds_them() {
    assert_eq!(duration_of(0, 10), 0);
    assert_eq!(duration_of(10, 0), 0);
    assert_eq!(duration_of(10, 10), SEC);
    assert_eq!(duration_of(20, 10), 2 * SEC);
    assert_eq!(duration_of(1, 44_100), 16_000);
    assert_eq!(duration_of(1, 11), SEC / 11 + 1);
    for (n, rate) in [(1usize, 11u32), (7, 13), (1000, 44_100), (35, 100)] {
        let t = duration_of(n, rate);
        assert_eq!(sample_index(t, rate, usize::MAX), n);
        assert!(sample_index(t - 1, rate, usize::MAX) < n);
    }
    assert_eq!(duration_of(usize::MAX, 1), i64::MAX);
}
