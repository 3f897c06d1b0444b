//! The device-specific conversion formulas, checked on exact values.

use dsm::max98373::celsius_to_dsm_unit as celsius_to_dsm_unit_fn;
use dsm::max98373::measured_temp_to_celsius as measured_temp_to_celsius_fn;
use dsm::max98373::rdc_to_ohm as rdc_to_ohm_fn;

#[test]
fn celsius_to_dsm_unit() {
    // 37.00 and 50.00 degrees Celsius, in centidegrees.
    assert_eq!(celsius_to_dsm_unit_fn(3700), 0x01280000);
    assert_eq!(celsius_to_dsm_unit_fn(5000), 0x01900000);
}

#[test]
fn rdc_to_ohm() {
    // 2.656767 ohms, in micro-ohms.
    assert_eq!(rdc_to_ohm_fn(0x05cea0c7), 2_656_767);
}

#[test]
fn measured_temp_to_celsius() {
    // 42.68 degrees Celsius, in centidegrees.
    assert_eq!(measured_temp_to_celsius_fn(56), 4268);
}

#[test]
fn rdc_to_ohm_is_deterministic_and_zero_at_zero() {
    assert_eq!(rdc_to_ohm_fn(0x05cea0c7), rdc_to_ohm_fn(0x05cea0c7));
    assert_eq!(rdc_to_ohm_fn(0), 0);
    // Rounding is symmetric about zero.
    assert_eq!(rdc_to_ohm_fn(-0x05cea0c7), -2_656_767);
}

#[test]
fn celsius_to_dsm_unit_truncates_and_saturates() {
    // 0.01 degrees is 5242.88 blob units, truncated.
    assert_eq!(celsius_to_dsm_unit_fn(1), 5242);
    assert_eq!(celsius_to_dsm_unit_fn(-1), -5242);
    // Far outside the physical range the conversion saturates, as the
    // device's float-to-integer cast does.
    assert_eq!(celsius_to_dsm_unit_fn(1_000_000_000), i32::MAX);
    assert_eq!(celsius_to_dsm_unit_fn(-1_000_000_000), i32::MIN);
}

#[test]
fn measured_temp_to_celsius_at_zero_code() {
    // Code 0 is -29 degrees.
    assert_eq!(measured_temp_to_celsius_fn(0), -2900);
}
