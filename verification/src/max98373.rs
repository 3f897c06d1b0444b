//! Device-specific pieces of the max98373 smart amplifier: its exact unit
//! conversion formulas, the sample averaging of its calibration pass, and the
//! fixed order of amplifier operations around a measurement.
//!
//! The formulas are exact in integer units: resistance in micro-ohms,
//! temperature in centidegrees Celsius. The hardware reads and writes
//! themselves (mixer controls, the parameter blob, the tone player) happen
//! outside the crate; a measurement pass follows the plans below and feeds
//! what it read through the functions here and into the decision engine.

use crate::arith::div_trunc;
use crate::arith::lemma_trunc_div_ordered;
use crate::arith::trunc_div;
use crate::engine::Error;
use crate::engine::OhmScale;
use vstd::prelude::*;

verus! {

/// Number of rdc samples averaged per calibration pass.
pub const CALIB_REPEAT_TIMES: usize = 5;

/// Warm-up of the background tone before rdc sampling, in milliseconds.
pub const RDC_CALIB_WARM_UP_TIME_MS: u64 = 500;

/// Pause between consecutive rdc samples, in milliseconds.
pub const RDC_CALIB_INTERVAL_MS: u64 = 200;

/// Warm-up of the background tone before the temperature read, in
/// milliseconds.
pub const TEMP_CALIB_WARM_UP_TIME_MS: u64 = 10;

/// Highest acceptable ambient temperature, centidegrees Celsius (40 degrees).
pub const TEMP_UPPER_LIMIT_CELSIUS: i64 = 4000;

/// Lowest acceptable ambient temperature, centidegrees Celsius (0 degrees).
pub const TEMP_LOWER_LIMIT_CELSIUS: i64 = 0;

/// The amplifier's rdc-to-ohm conversion: ohms = code * 3.66 / 2^27, which
/// in micro-ohms is the exact ratio 3660000 / 2^27.
pub fn rdc_to_ohm_scale() -> (r: OhmScale)
    ensures
        r == (OhmScale { num: 3660000 as u32, den: 0x800_0000 as u32 }),
        r.wf(),
{
    OhmScale { num: 3660000, den: 0x800_0000 }
}

/// Micro-ohms of an rdc code: code * 3660000 / 2^27, rounded to the nearest
/// micro-ohm, ties away from zero.
pub open spec fn spec_rdc_to_ohm(code: int) -> int {
    crate::arith::round_div(code * 3660000, 0x800_0000)
}

/// Converts an rdc code to micro-ohms.
pub fn rdc_to_ohm(x: i32) -> (r: i64)
    ensures
        r as int == spec_rdc_to_ohm(x as int),
{
    let scale = rdc_to_ohm_scale();
    scale.to_micro_ohm(x)
}

/// Centidegrees Celsius of a measured temperature code. The device formula
/// is degrees = code * 1.28 - 29, which is exactly code * 128 - 2900
/// centidegrees.
pub open spec fn spec_measured_temp_to_celsius(code: int) -> int {
    code * 128 - 2900
}

/// Converts a measured ambient-temperature code to centidegrees Celsius.
pub fn measured_temp_to_celsius(temp: i32) -> (r: i64)
    ensures
        r as int == spec_measured_temp_to_celsius(temp as int),
{
    temp as i64 * 128 - 2900
}

/// The protection-blob temperature unit of a centidegree temperature:
/// degrees * 2^19, i.e. centidegrees * 2^19 / 100 truncated toward zero, and
/// saturated to the 32-bit range exactly as the device's float-to-integer
/// conversion saturates.
pub open spec fn spec_celsius_to_dsm_unit(centi: int) -> int {
    let v = trunc_div(centi * 0x8_0000, 100);
    if v > 0x7fff_ffff {
        0x7fff_ffff
    } else if v < -0x8000_0000 {
        -0x8000_0000
    } else {
        v
    }
}

/// Converts a centidegree temperature to the protection-blob unit.
pub fn celsius_to_dsm_unit(celsius: i64) -> (r: i32)
    ensures
        r as int == spec_celsius_to_dsm_unit(celsius as int),
{
    if celsius > 409599 {
        proof {
            assert((celsius as int) * 0x8_0000 >= 409600 * 0x8_0000) by (nonlinear_arith)
                requires
                    celsius as int >= 409600,
            ;
            lemma_trunc_div_ordered((409600 as int) * 0x8_0000, (celsius as int) * 0x8_0000, 100);
        }
        return 0x7fff_ffff;
    }
    if celsius < -409600 {
        proof {
            assert((celsius as int) * 0x8_0000 <= (-409601) * 0x8_0000) by (nonlinear_arith)
                requires
                    celsius as int <= -409601,
            ;
            lemma_trunc_div_ordered((celsius as int) * 0x8_0000, (-409601 as int) * 0x8_0000, 100);
        }
        return -0x8000_0000;
    }
    let v: i64 = div_trunc(celsius * 0x8_0000, 100);
    proof {
        lemma_trunc_div_ordered((celsius as int) * 0x8_0000, (409599 as int) * 0x8_0000, 100);
        lemma_trunc_div_ordered((-409600 as int) * 0x8_0000, (celsius as int) * 0x8_0000, 100);
    }
    v as i32
}

/// Accumulates the repeated rdc samples of one calibration pass and averages
/// them per channel with the device's truncating integer division.
pub struct RdcAccumulator {
    /// Per-channel running sums of the samples seen so far.
    pub sums: Vec<i64>,
    /// How many sample rounds have been accumulated.
    pub rounds: usize,
}

impl RdcAccumulator {
    /// The sums stay bounded by the number of rounds accumulated.
    pub open spec fn wf(&self) -> bool {
        &&& self.rounds <= CALIB_REPEAT_TIMES
        &&& forall|i: int|
            0 <= i < self.sums@.len() ==> -0x8000_0000 * (self.rounds as int)
                <= #[trigger] self.sums@[i] <= 0x7fff_ffff * (self.rounds as int)
    }

    /// An empty accumulator for the given channel count.
    pub fn new(num_channels: usize) -> (r: RdcAccumulator)
        ensures
            r.wf(),
            r.rounds == 0,
            r.sums@.len() == num_channels,
            forall|i: int| 0 <= i < num_channels ==> #[trigger] r.sums@[i] == 0,
    {
        let mut sums: Vec<i64> = Vec::new();
        let mut i: usize = 0;
        while i < num_channels
            invariant
                i <= num_channels,
                sums@.len() == i,
                forall|j: int| 0 <= j < i ==> #[trigger] sums@[j] == 0,
            decreases num_channels - i,
        {
            sums.push(0);
            i = i + 1;
        }
        RdcAccumulator { sums, rounds: 0 }
    }

    /// Adds one round of per-channel rdc samples to the running sums.
    pub fn add_sample(&mut self, rdc: &Vec<i32>)
        requires
            old(self).wf(),
            rdc@.len() == old(self).sums@.len(),
            old(self).rounds < CALIB_REPEAT_TIMES,
        ensures
            final(self).wf(),
            final(self).rounds == old(self).rounds + 1,
            final(self).sums@.len() == old(self).sums@.len(),
            forall|i: int|
                0 <= i < final(self).sums@.len() ==> #[trigger] final(self).sums@[i] == old(
                    self,
                ).sums@[i] + rdc@[i],
    {
        let n: usize = self.sums.len();
        let mut i: usize = 0;
        while i < n
            invariant
                i <= n,
                n == self.sums@.len(),
                self.sums@.len() == old(self).sums@.len(),
                rdc@.len() == old(self).sums@.len(),
                self.rounds == old(self).rounds,
                old(self).wf(),
                old(self).rounds < CALIB_REPEAT_TIMES,
                forall|j: int|
                    0 <= j < i ==> #[trigger] self.sums@[j] == old(self).sums@[j] + rdc@[j],
                forall|j: int| i <= j < n ==> #[trigger] self.sums@[j] == old(self).sums@[j],
            decreases n - i,
        {
            let s: i64 = self.sums[i];
            let add: i64 = rdc[i] as i64;
            self.sums.set(i, s + add);
            i = i + 1;
        }
        self.rounds = self.rounds + 1;
        proof {
            assert forall|i: int|
                0 <= i < self.sums@.len() implies -0x8000_0000 * (self.rounds as int)
                <= #[trigger] self.sums@[i] <= 0x7fff_ffff * (self.rounds as int) by {
                assert(-0x8000_0000 * (self.rounds as int) == -0x8000_0000 * (old(
                    self,
                ).rounds as int) + -0x8000_0000);
                assert(0x7fff_ffff * (self.rounds as int) == 0x7fff_ffff * (old(
                    self,
                ).rounds as int) + 0x7fff_ffff);
            }
        }
    }

    /// The averaged per-channel rdc codes: each sum divided by the sample
    /// count with truncating integer division, as the device's driver does.
    pub fn average(&self) -> (r: Vec<i32>)
        requires
            self.wf(),
            self.rounds == CALIB_REPEAT_TIMES,
        ensures
            r@.len() == self.sums@.len(),
            forall|i: int|
                0 <= i < r@.len() ==> #[trigger] r@[i] as int == trunc_div(
                    self.sums@[i] as int,
                    CALIB_REPEAT_TIMES as int,
                ),
    {
        let n: usize = self.sums.len();
        let mut r: Vec<i32> = Vec::new();
        let mut i: usize = 0;
        while i < n
            invariant
                i <= n,
                n == self.sums@.len(),
                self.wf(),
                self.rounds == CALIB_REPEAT_TIMES,
                r@.len() == i,
                forall|j: int|
                    0 <= j < i ==> #[trigger] r@[j] as int == trunc_div(
                        self.sums@[j] as int,
                        CALIB_REPEAT_TIMES as int,
                    ),
            decreases n - i,
        {
            let s: i64 = self.sums[i];
            proof {
                lemma_trunc_div_ordered(s as int, (0x7fff_ffff as int) * 5, 5);
                lemma_trunc_div_ordered((-0x8000_0000 as int) * 5, s as int, 5);
            }
            let q: i64 = div_trunc(s, CALIB_REPEAT_TIMES as i64);
            r.push(q as i32);
            i = i + 1;
        }
        r
    }
}

/// One amplifier-facing step of a calibration pass.
#[derive(Clone, Copy, Debug, PartialEq, Eq, Structural)]
pub enum CalibStep {
    /// Start the background zero-sample tone and hold this long (ms) so the
    /// playback path is stable before the amplifier mode changes.
    StartTone { warm_up_ms: u64 },
    /// Switch the smart-pilot-tone feature on or off.
    SetSptMode { on: bool },
    /// Switch the calibration-sampling mode on or off.
    SetCalibMode { on: bool },
    /// Read the adaptive rdc register of every channel once.
    ReadRdc,
    /// Read the ambient-temperature register of this channel once.
    ReadTemp { channel: usize },
    /// Sleep this long (ms).
    WaitMs(u64),
    /// Stop the background tone.
    StopTone,
}

/// The exact order of amplifier operations of one rdc calibration pass: the
/// tone starts and warms up first, the pilot tone goes off and calibration
/// mode on before the first sample, five samples follow a pause apart, and
/// the modes are restored and the tone stopped only after the last sample.
pub open spec fn spec_rdc_calibration_plan() -> Seq<CalibStep> {
    seq![
        CalibStep::StartTone { warm_up_ms: RDC_CALIB_WARM_UP_TIME_MS },
        CalibStep::SetSptMode { on: false },
        CalibStep::SetCalibMode { on: true },
        CalibStep::ReadRdc,
        CalibStep::WaitMs(RDC_CALIB_INTERVAL_MS),
        CalibStep::ReadRdc,
        CalibStep::WaitMs(RDC_CALIB_INTERVAL_MS),
        CalibStep::ReadRdc,
        CalibStep::WaitMs(RDC_CALIB_INTERVAL_MS),
        CalibStep::ReadRdc,
        CalibStep::WaitMs(RDC_CALIB_INTERVAL_MS),
        CalibStep::ReadRdc,
        CalibStep::WaitMs(RDC_CALIB_INTERVAL_MS),
        CalibStep::SetSptMode { on: true },
        CalibStep::SetCalibMode { on: false },
        CalibStep::StopTone,
    ]
}

/// The plan of one rdc calibration pass, for the caller to execute in order.
pub fn rdc_calibration_plan() -> (r: Vec<CalibStep>)
    ensures
        r@ == spec_rdc_calibration_plan(),
{
    let mut v: Vec<CalibStep> = Vec::new();
    v.push(CalibStep::StartTone { warm_up_ms: RDC_CALIB_WARM_UP_TIME_MS });
    v.push(CalibStep::SetSptMode { on: false });
    v.push(CalibStep::SetCalibMode { on: true });
    v.push(CalibStep::ReadRdc);
    v.push(CalibStep::WaitMs(RDC_CALIB_INTERVAL_MS));
    v.push(CalibStep::ReadRdc);
    v.push(CalibStep::WaitMs(RDC_CALIB_INTERVAL_MS));
    v.push(CalibStep::ReadRdc);
    v.push(CalibStep::WaitMs(RDC_CALIB_INTERVAL_MS));
    v.push(CalibStep::ReadRdc);
    v.push(CalibStep::WaitMs(RDC_CALIB_INTERVAL_MS));
    v.push(CalibStep::ReadRdc);
    v.push(CalibStep::WaitMs(RDC_CALIB_INTERVAL_MS));
    v.push(CalibStep::SetSptMode { on: true });
    v.push(CalibStep::SetCalibMode { on: false });
    v.push(CalibStep::StopTone);
    proof {
        assert(v@ =~= spec_rdc_calibration_plan());
    }
    v
}

/// The order of one ambient-temperature read pass: the tone starts with its
/// own short warm-up, each channel's temperature register is read once, and
/// the tone stops.
pub open spec fn spec_ambient_temp_plan(num_channels: nat) -> Seq<CalibStep> {
    seq![CalibStep::StartTone { warm_up_ms: TEMP_CALIB_WARM_UP_TIME_MS }] + Seq::new(
        num_channels,
        |i: int| CalibStep::ReadTemp { channel: i as usize },
    ) + seq![CalibStep::StopTone]
}

/// The plan of one ambient-temperature read pass.
pub fn get_ambient_temp_plan(num_channels: usize) -> (r: Vec<CalibStep>)
    ensures
        r@ == spec_ambient_temp_plan(num_channels as nat),
{
    let mut v: Vec<CalibStep> = Vec::new();
    v.push(CalibStep::StartTone { warm_up_ms: TEMP_CALIB_WARM_UP_TIME_MS });
    let mut ch: usize = 0;
    while ch < num_channels
        invariant
            ch <= num_channels,
            v@.len() == 1 + ch,
            v@[0] == (CalibStep::StartTone { warm_up_ms: TEMP_CALIB_WARM_UP_TIME_MS }),
            forall|j: int| 0 <= j < ch ==> #[trigger] v@[1 + j] == (CalibStep::ReadTemp {
                channel: j as usize,
            }),
        decreases num_channels - ch,
    {
        v.push(CalibStep::ReadTemp { channel: ch });
        ch = ch + 1;
    }
    v.push(CalibStep::StopTone);
    proof {
        let sp = spec_ambient_temp_plan(num_channels as nat);
        assert(v@.len() == sp.len());
        assert forall|k: int| 0 <= k < v@.len() implies v@[k] == sp[k] by {
            if 1 <= k <= num_channels {
                assert(v@[1 + (k - 1)] == (CalibStep::ReadTemp { channel: (k - 1) as usize }));
            }
        }
        assert(v@ =~= sp);
    }
    v
}

/// The two volume modes the calibration flow switches between: the volume is
/// lowered before any tone plays and restored only after the calibration has
/// been applied.
#[derive(Clone, Copy, Debug, PartialEq, Eq, Structural)]
pub enum VolumeMode {
    /// Reduced volume, protecting the speaker during test-tone playback.
    Low,
    /// Normal playback volume.
    High,
}

/// How a boot proceeds once the volume has been lowered: a missing
/// calibration-parameter resource fails immediately with no partial attempt;
/// with boot-time calibration administratively disabled, the factory (VPD)
/// values are applied once the speaker node is discoverable; otherwise the
/// thermal-safety gate decides between the previous values (hot) and a fresh
/// measurement pass (cold).
#[derive(Clone, Copy, Debug, PartialEq, Eq, Structural)]
pub enum CalibRoute {
    /// Wait for the speakers to be ready, then apply the factory values.
    UseVpdValues,
    /// Run the thermal-safety gate; measure only if it reports cold.
    ThermalCheck,
}

/// Picks the calibration route of this boot.
pub fn boot_time_calibration_route(
    dsm_param_present: bool,
    boot_time_calibration_enabled: bool,
) -> (r: Result<CalibRoute, Error>)
    ensures
        r == (if !dsm_param_present {
            Err::<CalibRoute, Error>(Error::MissingDSMParam)
        } else if !boot_time_calibration_enabled {
            Ok::<CalibRoute, Error>(CalibRoute::UseVpdValues)
        } else {
            Ok::<CalibRoute, Error>(CalibRoute::ThermalCheck)
        }),
{
    if !dsm_param_present {
        Err(Error::MissingDSMParam)
    } else if !boot_time_calibration_enabled {
        Ok(CalibRoute::UseVpdValues)
    } else {
        Ok(CalibRoute::ThermalCheck)
    }
}

} // verus!
