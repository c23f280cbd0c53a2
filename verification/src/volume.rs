//! Conversions between the audio server's volume units and user-facing
//! percentages, and the volume-delta computation.
//!
//! Percentages are carried in thousandths of a percent ("milli-percent"), so
//! fractional command-line percentages such as `-12.5` stay exact in integer
//! arithmetic. All divisions round to the nearest integer, which pins every
//! result down exactly; negative intermediate volumes are clamped to zero and
//! values beyond the server's range saturate at `u32::MAX`.

use vstd::prelude::*;

verus! {

/// The server's volume value for 100% (0 dB).
pub const PA_VOLUME_NORM: u32 = 0x10000;

/// Milli-percent value corresponding to 100%.
pub const MILLI_PERCENT_FULL: u64 = 100_000;

/// Quotient of `n` by `d`, rounded to the nearest integer with halves rounded
/// up; used only with `n >= 0` and `d > 0`.
pub open spec fn round_div(n: int, d: int) -> int
    recommends
        n >= 0,
        d > 0,
{
    (n + d / 2) / d
}

/// The percentage (in milli-percent) shown for a volume value: a linear
/// rescaling of `v` by `100% / PA_VOLUME_NORM`, rounded to nearest.
pub open spec fn spec_volume_to_percent(v: int) -> int {
    round_div(v * (MILLI_PERCENT_FULL as int), PA_VOLUME_NORM as int)
}

/// The volume value for a percentage (in milli-percent): the inverse linear
/// rescaling, rounded to nearest, clamped to the `u32` volume range.
pub open spec fn spec_percent_to_volume(p: int) -> int {
    if p <= 0 {
        0
    } else {
        let r = round_div(p * (PA_VOLUME_NORM as int), MILLI_PERCENT_FULL as int);
        if r > u32::MAX { u32::MAX as int } else { r }
    }
}

/// The new volume after adding `d` milli-percent to `v` volume units under
/// the linear (gamma = 1) perceptual curve: the sum `v/NORM + d/100%` in the
/// normalized domain, clamped to zero from below, rescaled to volume units,
/// rounded to nearest and saturated at the `u32` range.
pub open spec fn spec_volume_with_delta(d: int, v: int) -> int {
    let num = v * (MILLI_PERCENT_FULL as int) + d * (PA_VOLUME_NORM as int);
    if num <= 0 {
        0
    } else {
        let r = round_div(num, MILLI_PERCENT_FULL as int);
        if r > u32::MAX { u32::MAX as int } else { r }
    }
}

/// Percentage (milli-percent) displayed for a server volume value.
pub fn volume_to_percent(volume: u32) -> (p: i64)
    ensures
        p == spec_volume_to_percent(volume as int),
{
    let n: u64 = (volume as u64) * MILLI_PERCENT_FULL + (PA_VOLUME_NORM as u64) / 2;
    let r: u64 = n / (PA_VOLUME_NORM as u64);
    r as i64
}

/// Server volume value for a percentage (milli-percent); negative
/// percentages floor at zero volume.
pub fn percent_to_volume(percent: i64) -> (v: u32)
    ensures
        v == spec_percent_to_volume(percent as int),
{
    if percent <= 0 {
        return 0;
    }
    assert(percent as u128 == percent as int);
    assert((percent as u128) * (PA_VOLUME_NORM as u128) <= (i64::MAX as u128) * 0x10000) by {
        vstd::arithmetic::mul::lemma_mul_inequality(percent as int, i64::MAX as int, 0x10000);
    }
    let n: u128 = (percent as u128) * (PA_VOLUME_NORM as u128) + (MILLI_PERCENT_FULL as u128) / 2;
    let r: u128 = n / (MILLI_PERCENT_FULL as u128);
    if r > u32::MAX as u128 {
        u32::MAX
    } else {
        r as u32
    }
}

/// New volume for one channel after a relative change of `delta_percent`
/// milli-percent, under the linear (gamma = 1) curve.
pub fn volume_with_delta(delta_percent: i64, old_val: u32) -> (v: u32)
    ensures
        v == spec_volume_with_delta(delta_percent as int, old_val as int),
{
    assert((delta_percent as i128) * (PA_VOLUME_NORM as i128) <= (i64::MAX as i128) * 0x10000
        && (delta_percent as i128) * (PA_VOLUME_NORM as i128) >= (i64::MIN as i128) * 0x10000) by {
        vstd::arithmetic::mul::lemma_mul_inequality(delta_percent as int, i64::MAX as int, 0x10000);
        vstd::arithmetic::mul::lemma_mul_inequality(i64::MIN as int, delta_percent as int, 0x10000);
    }
    assert((old_val as i128) * (MILLI_PERCENT_FULL as i128) <= (u32::MAX as i128) * 100_000) by {
        vstd::arithmetic::mul::lemma_mul_inequality(old_val as int, u32::MAX as int, 100_000);
    }
    let num: i128 = (old_val as i128) * (MILLI_PERCENT_FULL as i128) + (delta_percent as i128)
        * (PA_VOLUME_NORM as i128);
    if num <= 0 {
        return 0;
    }
    let n: u128 = (num as u128) + (MILLI_PERCENT_FULL as u128) / 2;
    let r: u128 = n / (MILLI_PERCENT_FULL as u128);
    if r > u32::MAX as u128 {
        u32::MAX
    } else {
        r as u32
    }
}

/// Converting a percentage to volume units and back changes it by at most
/// one milli-percent, for percentages within the server's volume range.
pub proof fn lemma_percent_round_trip(p: int)
    requires
        0 <= p <= 6_000_000_000,
    ensures
        p - 1 <= spec_volume_to_percent(spec_percent_to_volume(p)) <= p + 1,
{
    let nrm = PA_VOLUME_NORM as int;
    let full = MILLI_PERCENT_FULL as int;
    if p == 0 {
        assert(spec_percent_to_volume(0) == 0);
        assert(spec_volume_to_percent(0) == (full / 2) / nrm);
    } else {
        let a = p * nrm + full / 2;
        let v = a / full;
        vstd::arithmetic::div_mod::lemma_fundamental_div_mod(a, full);
        vstd::arithmetic::div_mod::lemma_mod_bound(a, full);
        assert(v * full <= a < v * full + full);
        assert(v <= u32::MAX);
        assert(spec_percent_to_volume(p) == v);
        let b = v * full + nrm / 2;
        let q = b / nrm;
        vstd::arithmetic::div_mod::lemma_fundamental_div_mod(b, nrm);
        vstd::arithmetic::div_mod::lemma_mod_bound(b, nrm);
        assert(q * nrm <= b < q * nrm + nrm);
        assert(spec_volume_to_percent(v) == q);
        assert((q - p) * nrm <= full / 2 + nrm / 2) by {
            assert(q * nrm <= v * full + nrm / 2);
            assert(v * full <= p * nrm + full / 2);
        }
        assert((p - q) * nrm < full / 2 + nrm / 2) by {
            assert(p * nrm - full / 2 < v * full);
            assert(v * full < q * nrm + nrm / 2);
        }
        assert(q - p <= 1);
        assert(p - q <= 1);
    }
}

/// A relative change of zero leaves the volume unchanged (the linear curve
/// is exact on whole volume units).
pub proof fn lemma_zero_delta_no_op(v: u32)
    ensures
        spec_volume_with_delta(0, v as int) == v,
{
    let full = MILLI_PERCENT_FULL as int;
    let num = (v as int) * full;
    if num <= 0 {
        assert(v == 0);
    } else {
        let a = num + full / 2;
        let r = a / full;
        vstd::arithmetic::div_mod::lemma_fundamental_div_mod(a, full);
        vstd::arithmetic::div_mod::lemma_mod_bound(a, full);
        assert(r * full <= a < r * full + full);
        assert(r == v as int);
    }
}

/// The computed volume is never negative, whatever the starting volume and
/// delta are.
pub proof fn lemma_delta_never_negative(d: int, v: int)
    ensures
        spec_volume_with_delta(d, v) >= 0,
{
    let full = MILLI_PERCENT_FULL as int;
    let num = v * full + d * (PA_VOLUME_NORM as int);
    if num > 0 {
        let a = num + full / 2;
        vstd::arithmetic::div_mod::lemma_fundamental_div_mod(a, full);
        vstd::arithmetic::div_mod::lemma_mod_bound(a, full);
    }
}

/// Under the linear curve the delta computation is plain additive percent
/// change: below the saturation point, the result differs from the exact sum
/// `v + d * PA_VOLUME_NORM / 100%` by at most half a volume unit, and a sum
/// at or below zero gives exactly zero.
pub proof fn lemma_delta_is_additive(d: int, v: int)
    ensures
        v * (MILLI_PERCENT_FULL as int) + d * (PA_VOLUME_NORM as int) <= 0
            ==> spec_volume_with_delta(d, v) == 0,
        ({
            let full = MILLI_PERCENT_FULL as int;
            let num = v * full + d * (PA_VOLUME_NORM as int);
            let r = spec_volume_with_delta(d, v);
            num > 0 && r < u32::MAX ==> -(full / 2) <= r * full - num <= full / 2
        }),
{
    let full = MILLI_PERCENT_FULL as int;
    let num = v * full + d * (PA_VOLUME_NORM as int);
    if num > 0 {
        let a = num + full / 2;
        let r = a / full;
        vstd::arithmetic::div_mod::lemma_fundamental_div_mod(a, full);
        vstd::arithmetic::div_mod::lemma_mod_bound(a, full);
        assert(r * full <= a < r * full + full);
    }
}

} // verus!
