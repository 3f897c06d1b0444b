//! The measurement-pass pieces: temperature conversion configuration, sample
//! averaging, the fixed operation plans, the boot route, and the bounded
//! wait for the speaker node.

use dsm::engine::OhmScale;
use dsm::engine::WaitStep;
use dsm::max98373::boot_time_calibration_route;
use dsm::max98373::get_ambient_temp_plan;
use dsm::max98373::rdc_calibration_plan;
use dsm::max98373::CalibRoute;
use dsm::max98373::CalibStep;
use dsm::max98373::RdcAccumulator;
use dsm::Error;
use dsm::TempConverter;
use dsm::DSM;

#[test]
fn default_temp_converter_is_whole_degrees() {
    let tc = TempConverter::default();
    assert_eq!(tc.vpd_to_celsius(25), 2500);
    assert_eq!(tc.vpd_to_celsius(-3), -300);
    // Rounding to the nearest degree, ties away from zero.
    assert_eq!(tc.celsius_to_vpd(2550), 26);
    assert_eq!(tc.celsius_to_vpd(2549), 25);
    assert_eq!(tc.celsius_to_vpd(-50), -1);
    assert_eq!(tc.celsius_to_vpd(-49), 0);
}

#[test]
fn custom_temp_converter_round_trips() {
    let tc = TempConverter::new(2, 10);
    assert_eq!(tc.vpd_to_celsius(7), 24);
    assert_eq!(tc.celsius_to_vpd(24), 7);
    for code in [-1000, -1, 0, 1, 999] {
        assert_eq!(tc.celsius_to_vpd(tc.vpd_to_celsius(code)), code);
    }
}

#[test]
fn set_temp_converter_replaces_only_the_converter() {
    let mut dsm = DSM::new("card", 2, OhmScale { num: 1, den: 1 }, 4000, 0);
    dsm.set_temp_converter(TempConverter::new(1, 0));
    // The store unit is now centidegrees itself.
    let r = dsm.get_vpd_calibration_value(0, Some(dsm::engine::VpdValue { rdc: 5, temp: 2500 }));
    assert_eq!(r, Ok(dsm::CalibData { rdc: 5, temp: 2500 }));
}

#[test]
fn accumulator_averages_with_truncation() {
    let mut acc = RdcAccumulator::new(2);
    for s in [
        vec![1, -1],
        vec![2, -2],
        vec![1, -1],
        vec![2, -2],
        vec![1, -1],
    ] {
        acc.add_sample(&s);
    }
    // Sums are 7 and -7; integer division by 5 truncates toward zero.
    assert_eq!(acc.average(), vec![1, -1]);
}

#[test]
fn accumulator_averages_exact_sums() {
    let mut acc = RdcAccumulator::new(1);
    for _ in 0..5 {
        acc.add_sample(&vec![0x05cea0c7]);
    }
    assert_eq!(acc.average(), vec![0x05cea0c7]);
}

#[test]
fn rdc_plan_orders_the_pass() {
    let plan = rdc_calibration_plan();
    assert_eq!(plan.len(), 16);
    assert_eq!(plan[0], CalibStep::StartTone { warm_up_ms: 500 });
    assert_eq!(plan[1], CalibStep::SetSptMode { on: false });
    assert_eq!(plan[2], CalibStep::SetCalibMode { on: true });
    let reads = plan.iter().filter(|s| **s == CalibStep::ReadRdc).count();
    assert_eq!(reads, 5);
    // Every read happens after calibration mode goes on and before it goes
    // off, with a 200 ms pause after each.
    for (i, s) in plan.iter().enumerate() {
        if *s == CalibStep::ReadRdc {
            assert!(i > 2 && i < 13);
            assert_eq!(plan[i + 1], CalibStep::WaitMs(200));
        }
    }
    assert_eq!(plan[13], CalibStep::SetSptMode { on: true });
    assert_eq!(plan[14], CalibStep::SetCalibMode { on: false });
    assert_eq!(plan[15], CalibStep::StopTone);
}

#[test]
fn ambient_temp_plan_reads_each_channel_once() {
    let plan = get_ambient_temp_plan(2);
    assert_eq!(
        plan,
        vec![
            CalibStep::StartTone { warm_up_ms: 10 },
            CalibStep::ReadTemp { channel: 0 },
            CalibStep::ReadTemp { channel: 1 },
            CalibStep::StopTone,
        ]
    );
}

#[test]
fn boot_route_checks_parameters_first() {
    assert_eq!(boot_time_calibration_route(false, true), Err(Error::MissingDSMParam));
    assert_eq!(boot_time_calibration_route(false, false), Err(Error::MissingDSMParam));
    assert_eq!(boot_time_calibration_route(true, false), Ok(CalibRoute::UseVpdValues));
    assert_eq!(boot_time_calibration_route(true, true), Ok(CalibRoute::ThermalCheck));
}

#[test]
fn speaker_wait_is_bounded() {
    let dsm = DSM::new("card", 1, OhmScale { num: 1, den: 1 }, 4000, 0);
    assert_eq!(dsm.wait_for_speakers_ready_step(1, true), WaitStep::Ready);
    assert_eq!(dsm.wait_for_speakers_ready_step(1, false), WaitStep::RetryAfterMs(500));
    assert_eq!(dsm.wait_for_speakers_ready_step(2, false), WaitStep::RetryAfterMs(500));
    assert_eq!(
        dsm.wait_for_speakers_ready_step(3, false),
        WaitStep::GiveUp(Error::InternalSpeakerNotFound)
    );
    assert_eq!(dsm.wait_for_speakers_ready_step(3, true), WaitStep::Ready);
}
