//! Volume-unit and percentage conversions on concrete values. Percentages
//! are in milli-percent: 50_000 means 50%.

use active_volume::volume::{percent_to_volume, volume_to_percent, volume_with_delta};

#[test]
fn percent_to_volume_table() {
    assert_eq!(percent_to_volume(100_000), 0x10000); // 100% is the norm value
    assert_eq!(percent_to_volume(50_000), 32_768);
    assert_eq!(percent_to_volume(25_000), 16_384);
    assert_eq!(percent_to_volume(0), 0);
    assert_eq!(percent_to_volume(-5_000), 0); // negative floors at zero
    assert_eq!(percent_to_volume(1), 1); // 0.001% rounds to one unit
    assert_eq!(percent_to_volume(200_000), 0x20000);
}

#[test]
fn volume_to_percent_table() {
    assert_eq!(volume_to_percent(0x10000), 100_000);
    assert_eq!(volume_to_percent(32_768), 50_000);
    assert_eq!(volume_to_percent(0), 0);
    assert_eq!(volume_to_percent(1), 2); // 1/65536 is 0.0015%, rounded up
}

#[test]
fn round_trip_is_within_one_milli_percent() {
    for p in [0i64, 1, 7, 999, 1_000, 12_345, 50_000, 99_999, 100_000, 333_333, 2_000_000] {
        let back = volume_to_percent(percent_to_volume(p));
        assert!((back - p).abs() <= 1, "round trip of {p} gave {back}");
    }
}

#[test]
fn zero_delta_keeps_the_volume() {
    for v in [0u32, 1, 2, 100, 32_768, 65_535, 0x10000, 0x20000, u32::MAX] {
        assert_eq!(volume_with_delta(0, v), v);
    }
}

#[test]
fn delta_never_goes_negative() {
    assert_eq!(volume_with_delta(-1_000_000, 100), 0);
    assert_eq!(volume_with_delta(-100_000, 0x10000), 0);
    assert_eq!(volume_with_delta(-100_000, 42), 0);
    assert_eq!(volume_with_delta(i64::MIN, u32::MAX), 0);
}

#[test]
fn delta_is_plain_additive_percent_change() {
    // -50% from the norm volume lands exactly on half the norm
    assert_eq!(volume_with_delta(-50_000, 0x10000), 32_768);
    // +25% from silence is a quarter of the norm
    assert_eq!(volume_with_delta(25_000, 0), 16_384);
    // +50% from half the norm is back at the norm
    assert_eq!(volume_with_delta(50_000, 32_768), 0x10000);
    // big deltas saturate at the u32 range instead of wrapping
    assert_eq!(volume_with_delta(i64::MAX, 1), u32::MAX);
}
