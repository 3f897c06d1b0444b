//! The decision engine: the thermal-safety gate and the arbitration, on
//! concrete scenarios.

use dsm::engine::OhmScale;
use dsm::engine::TimeRecord;
use dsm::engine::VpdValue;
use dsm::CalibData;
use dsm::Datastore;
use dsm::Error;
use dsm::SpeakerStatus;
use dsm::DSM;

fn engine(num_channels: usize) -> DSM {
    DSM::new(
        "sofcml_max98390_da7219",
        num_channels,
        OhmScale { num: 3660000, den: 0x800_0000 },
        4000,
        0,
    )
}

#[test]
fn first_boot_is_cold_regardless_of_store() {
    let dsm = engine(2);
    let stored = vec![None, Some(Datastore::DSM { rdc: 1, temp: 1 })];
    let vpd = vec![None, None];
    let r = dsm.check_speaker_over_heated_workflow(TimeRecord::FirstBoot, 12345, &stored, &vpd);
    assert_eq!(r.status, Ok(SpeakerStatus::Cold));
    assert!(!r.purge_datastore);
}

#[test]
fn within_cool_down_returns_previous_values() {
    let dsm = engine(2);
    // Elapsed time since shutdown: 60 seconds, inside the 180-second window.
    let record = TimeRecord::Times { run: 100, shutdown: 200 };
    let stored = vec![
        Some(Datastore::DSM { rdc: 100, temp: 30 }),
        Some(Datastore::UseVPD),
    ];
    let vpd = vec![None, Some(VpdValue { rdc: 90, temp: 25 })];
    let r = dsm.check_speaker_over_heated_workflow(record, 260, &stored, &vpd);
    assert_eq!(
        r.status,
        Ok(SpeakerStatus::Hot(vec![
            CalibData { rdc: 100, temp: 3000 },
            CalibData { rdc: 90, temp: 2500 },
        ]))
    );
    assert!(!r.purge_datastore);
}

#[test]
fn past_cool_down_is_cold() {
    let dsm = engine(1);
    let record = TimeRecord::Times { run: 100, shutdown: 200 };
    let stored = vec![None];
    let vpd = vec![None];
    // Exactly at the 180-second boundary the window is over.
    let r = dsm.check_speaker_over_heated_workflow(record, 380, &stored, &vpd);
    assert_eq!(r.status, Ok(SpeakerStatus::Cold));
    // One second earlier the speakers are still presumed hot.
    let r = dsm.check_speaker_over_heated_workflow(record, 379, &stored, &vpd);
    assert_eq!(r.status, Err(Error::MissingDatastore(0)));
    assert!(!r.purge_datastore);
}

#[test]
fn shutdown_before_run_start_fails_and_purges() {
    let dsm = engine(2);
    let record = TimeRecord::Times { run: 300, shutdown: 200 };
    let stored = vec![Some(Datastore::UseVPD), Some(Datastore::UseVPD)];
    let vpd = vec![Some(VpdValue { rdc: 1, temp: 1 }), Some(VpdValue { rdc: 1, temp: 1 })];
    let r = dsm.check_speaker_over_heated_workflow(record, 1000, &stored, &vpd);
    assert_eq!(r.status, Err(Error::InvalidShutDownTime));
    assert!(r.purge_datastore);
}

#[test]
fn shutdown_in_the_future_fails_and_purges() {
    let dsm = engine(1);
    let record = TimeRecord::Times { run: 100, shutdown: 500 };
    let r = dsm.check_speaker_over_heated_workflow(record, 400, &vec![None], &vec![None]);
    assert_eq!(r.status, Err(Error::InvalidShutDownTime));
    assert!(r.purge_datastore);
}

#[test]
fn unreadable_record_fails_and_purges() {
    let dsm = engine(1);
    let r = dsm.check_speaker_over_heated_workflow(TimeRecord::Unreadable, 400, &vec![None], &vec![
        None,
    ]);
    assert_eq!(r.status, Err(Error::InvalidShutDownTime));
    assert!(r.purge_datastore);
}

#[test]
fn hot_with_missing_vpd_fails_without_purge() {
    let dsm = engine(2);
    let record = TimeRecord::Times { run: 0, shutdown: 0 };
    let stored = vec![Some(Datastore::UseVPD), Some(Datastore::UseVPD)];
    let vpd = vec![None, Some(VpdValue { rdc: 1, temp: 1 })];
    let r = dsm.check_speaker_over_heated_workflow(record, 10, &stored, &vpd);
    assert_eq!(r.status, Err(Error::MissingVpd(0)));
    assert!(!r.purge_datastore);
}

#[test]
fn accepts_fresh_value_in_band_and_persists_it() {
    let dsm = engine(1);
    // Previous rdc 100, fresh 110: relative difference 0.10 lies inside
    // [0.03, 0.3), so the fresh value wins and is persisted.
    let stored = Some(Datastore::DSM { rdc: 100, temp: 20 });
    let fresh = CalibData { rdc: 110, temp: 2050 };
    let r = dsm.decide_calibration_value_workflow(0, fresh, stored, None);
    assert_eq!(r.value, Ok(fresh));
    // 2050 centidegrees rounds to 21 store units (ties away from zero: 20.5
    // rounds up).
    assert_eq!(r.save, Some(Datastore::DSM { rdc: 110, temp: 21 }));
}

#[test]
fn rejects_implausible_diff_and_persists_nothing() {
    let dsm = engine(1);
    // Fresh 135 against previous 100: difference 0.35 > 0.3.
    let stored = Some(Datastore::DSM { rdc: 100, temp: 20 });
    let fresh = CalibData { rdc: 135, temp: 2000 };
    let r = dsm.decide_calibration_value_workflow(0, fresh, stored, None);
    assert_eq!(r.value, Err(Error::LargeCalibrationDiff(fresh)));
    assert_eq!(r.save, None);
}

#[test]
fn diff_exactly_at_upper_tolerance_is_accepted() {
    let dsm = engine(1);
    // 130 against 100 is exactly 0.3, which is not above the band.
    let stored = Some(Datastore::DSM { rdc: 100, temp: 20 });
    let fresh = CalibData { rdc: 130, temp: 2000 };
    let r = dsm.decide_calibration_value_workflow(0, fresh, stored, None);
    assert_eq!(r.value, Ok(fresh));
    assert_eq!(r.save, Some(Datastore::DSM { rdc: 130, temp: 20 }));
}

#[test]
fn negligible_diff_keeps_previous_value() {
    let dsm = engine(1);
    // 101 against 100 is 0.01 < 0.03: the previous value stands, and the
    // existing record is left alone.
    let stored = Some(Datastore::DSM { rdc: 100, temp: 20 });
    let fresh = CalibData { rdc: 101, temp: 2000 };
    let r = dsm.decide_calibration_value_workflow(0, fresh, stored, None);
    assert_eq!(r.value, Ok(CalibData { rdc: 100, temp: 2000 }));
    assert_eq!(r.save, None);
}

#[test]
fn negligible_diff_without_record_writes_use_vpd() {
    let dsm = engine(1);
    // No stored record: the factory value is the previous value, and a
    // `UseVPD` record is written so future boots skip the factory lookup.
    let vpd = Some(VpdValue { rdc: 100, temp: 20 });
    let fresh = CalibData { rdc: 101, temp: 2000 };
    let r = dsm.decide_calibration_value_workflow(0, fresh, None, vpd);
    assert_eq!(r.value, Ok(CalibData { rdc: 100, temp: 2000 }));
    assert_eq!(r.save, Some(Datastore::UseVPD));
}

#[test]
fn temperature_at_upper_limit_is_accepted() {
    let dsm = engine(1);
    let stored = Some(Datastore::DSM { rdc: 100, temp: 20 });
    let fresh = CalibData { rdc: 110, temp: 4000 };
    let r = dsm.decide_calibration_value_workflow(0, fresh, stored, None);
    assert_eq!(r.value, Ok(fresh));
    assert_eq!(r.save, Some(Datastore::DSM { rdc: 110, temp: 40 }));
}

#[test]
fn temperature_above_limit_falls_back_to_previous() {
    let dsm = engine(1);
    let stored = Some(Datastore::DSM { rdc: 100, temp: 20 });
    let fresh = CalibData { rdc: 110, temp: 4001 };
    let r = dsm.decide_calibration_value_workflow(0, fresh, stored, None);
    assert_eq!(r.value, Ok(CalibData { rdc: 100, temp: 2000 }));
    assert_eq!(r.save, None);
}

#[test]
fn temperature_out_of_range_without_previous_value_errors() {
    let dsm = engine(1);
    let fresh = CalibData { rdc: 110, temp: -1 };
    let r = dsm.decide_calibration_value_workflow(0, fresh, None, None);
    assert_eq!(r.value, Err(Error::InvalidTemperature(-1)));
    assert_eq!(r.save, None);
}

#[test]
fn in_range_temperature_without_previous_value_errors() {
    let dsm = engine(1);
    let fresh = CalibData { rdc: 110, temp: 2000 };
    let r = dsm.decide_calibration_value_workflow(3, fresh, None, None);
    assert_eq!(r.value, Err(Error::MissingVpd(3)));
    assert_eq!(r.save, None);
}

#[test]
fn all_vpd_values_in_channel_order() {
    let dsm = engine(2);
    let vpd = vec![
        Some(VpdValue { rdc: 10, temp: 20 }),
        Some(VpdValue { rdc: 30, temp: 40 }),
    ];
    let r = dsm.get_all_vpd_calibration_value(&vpd);
    assert_eq!(
        r,
        Ok(vec![CalibData { rdc: 10, temp: 2000 }, CalibData { rdc: 30, temp: 4000 }])
    );
}

#[test]
fn missing_vpd_value_names_first_channel() {
    let dsm = engine(3);
    let vpd = vec![Some(VpdValue { rdc: 10, temp: 20 }), None, None];
    let r = dsm.get_all_vpd_calibration_value(&vpd);
    assert_eq!(r, Err(Error::MissingVpd(1)));
}

#[test]
fn arbitration_is_independent_of_the_ohm_scale() {
    // The tolerance bands compare a relative difference, which any positive
    // linear rdc-to-ohm conversion leaves unchanged.
    let stored = Some(Datastore::DSM { rdc: 100, temp: 20 });
    let fresh = CalibData { rdc: 135, temp: 2000 };
    for scale in [
        OhmScale { num: 1, den: 1 },
        OhmScale { num: 3660000, den: 0x800_0000 },
        OhmScale { num: 7, den: 3 },
    ] {
        let dsm = DSM::new("card", 1, scale, 4000, 0);
        let r = dsm.decide_calibration_value_workflow(0, fresh, stored, None);
        assert_eq!(r.value, Err(Error::LargeCalibrationDiff(fresh)));
    }
}

#[test]
fn is_speaker_over_heated_time_logic() {
    let dsm = engine(1);
    assert_eq!(dsm.is_speaker_over_heated(100, 200, 260), Ok(true));
    assert_eq!(dsm.is_speaker_over_heated(100, 200, 380), Ok(false));
    assert_eq!(dsm.is_speaker_over_heated(300, 200, 400), Err(Error::InvalidShutDownTime));
    assert_eq!(dsm.is_speaker_over_heated(100, 500, 400), Err(Error::InvalidShutDownTime));
}
