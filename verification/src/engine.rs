//! The calibration decision engine: the thermal-safety gate (may the speaker
//! be measured at all?) and the calibration-value arbitration (is a fresh
//! measurement plausible, and what gets persisted?).
//!
//! The engine is pure: it reads snapshots of the elapsed-time record, the
//! clock, the per-channel stored records and the factory defaults, and
//! returns the decision together with the effects the caller must apply
//! (which record to save, whether to purge the store). Reading and writing
//! the files themselves stays outside the crate, so every persistence effect
//! happens strictly after the decision it follows from.

use crate::datastore::Datastore;
use crate::temperature::lemma_to_vpd_ordered;
use crate::temperature::TempConverter;
use vstd::prelude::*;

verus! {

/// One channel's calibration pair: the DC resistance in the amplifier's
/// native fixed-point unit and the ambient temperature, in centidegrees
/// Celsius, at which it was measured.
#[derive(Clone, Copy, Debug, PartialEq, Eq, Structural)]
pub struct CalibData {
    /// DC resistance of the speaker, in the amplifier's fixed-point unit.
    pub rdc: i32,
    /// Ambient temperature in centidegrees Celsius.
    pub temp: i64,
}

/// A factory-programmed (VPD) calibration pair, in the store's units.
#[derive(Clone, Copy, Debug, PartialEq, Eq, Structural)]
pub struct VpdValue {
    /// Factory rdc, in the amplifier's fixed-point unit.
    pub rdc: i32,
    /// Factory ambient temperature, in the store's persisted unit.
    pub temp: i32,
}

/// Everything that can stop a boot-time calibration.
#[derive(Clone, Copy, Debug, PartialEq, Eq, Structural)]
pub enum Error {
    /// The elapsed-time record is unreadable or self-inconsistent.
    InvalidShutDownTime,
    /// A fresh measurement's temperature (centidegrees Celsius) lies outside
    /// the configured bounds and no previous value exists to fall back to.
    InvalidTemperature(i64),
    /// A fresh measurement's rdc drifted implausibly far from the previous
    /// value; carries the rejected measurement for diagnostics.
    LargeCalibrationDiff(CalibData),
    /// The channel has no stored record where one is required.
    MissingDatastore(usize),
    /// The channel has no factory-default value where one is required.
    MissingVpd(usize),
    /// The amplifier's calibration-parameter resource is absent.
    MissingDSMParam,
    /// The internal speaker node never appeared.
    InternalSpeakerNotFound,
}

/// What the thermal-safety gate reports.
#[derive(Debug, PartialEq)]
pub enum SpeakerStatus {
    /// The speakers are cold: boot-time calibration may run.
    Cold,
    /// The speakers may still be hot: calibration must be skipped and these
    /// previous per-channel values used instead.
    Hot(Vec<CalibData>),
}

/// A snapshot of the elapsed-time record the thermal-safety gate consumes.
#[derive(Clone, Copy, Debug, PartialEq, Eq, Structural)]
pub enum TimeRecord {
    /// No run-start record exists: this is the first boot ever.
    FirstBoot,
    /// A record exists but could not be read or parsed.
    Unreadable,
    /// The recorded run-start and shutdown times, in seconds since the epoch.
    Times { run: u64, shutdown: u64 },
}

/// The outcome of the thermal-safety gate.
#[derive(Debug, PartialEq)]
pub struct ThermalOutcome {
    /// The status, or the error that stops this boot's calibration.
    pub status: Result<SpeakerStatus, Error>,
    /// Whether every channel's stored record must be deleted before the
    /// error is surfaced. Set exactly when the elapsed-time record cannot be
    /// trusted: then the store's content cannot be trusted either.
    pub purge_datastore: bool,
}

/// The outcome of the arbitration for one channel.
#[derive(Clone, Copy, Debug, PartialEq, Eq)]
pub struct Arbitration {
    /// The calibration value to apply, or the error for this boot attempt.
    pub value: Result<CalibData, Error>,
    /// The record to persist for this channel. Persisting happens strictly
    /// after the numeric decision, so a failed decision never leaves a
    /// partially written record.
    pub save: Option<Datastore>,
}

/// The linear conversion from rdc codes to micro-ohms, as the positive ratio
/// `num / den`.
#[derive(Clone, Copy, Debug, PartialEq, Eq, Structural)]
pub struct OhmScale {
    /// Micro-ohm numerator.
    pub num: u32,
    /// Denominator.
    pub den: u32,
}

impl OhmScale {
    /// A meaningful scale: a positive ratio of bounded size.
    pub open spec fn wf(&self) -> bool {
        1 <= self.num <= 0x1000_0000 && self.den >= 1
    }

    /// The micro-ohms an rdc code denotes, rounded to the nearest.
    pub open spec fn spec_to_micro_ohm(&self, code: int) -> int {
        crate::arith::round_div(code * self.num, self.den as int)
    }

    /// Converts an rdc code to micro-ohms.
    pub fn to_micro_ohm(&self, code: i32) -> (r: i64)
        requires
            self.wf(),
        ensures
            r as int == self.spec_to_micro_ohm(code as int),
    {
        proof {
            assert(-0x1000_0000_0000_0000 <= (code as int) * (self.num as int)
                <= 0x1000_0000_0000_0000) by (nonlinear_arith)
                requires
                    -0x8000_0000 <= code as int <= 0x7fff_ffff,
                    1 <= self.num as int <= 0x1000_0000,
            ;
        }
        crate::arith::div_round(code as i64 * self.num as i64, self.den as i64)
    }
}

/// Whether the relative difference `(fresh - previous) / previous` exceeds
/// `num / den` (the denominator positive). A zero previous value behaves as
/// the limit: any positive fresh value lies infinitely above it, any negative
/// one infinitely below, and zero is neither above nor below.
pub open spec fn rel_diff_above(f: int, p: int, num: int, den: int) -> bool
    recommends
        den >= 1,
{
    if p > 0 {
        den * (f - p) > num * p
    } else if p < 0 {
        den * (f - p) < num * p
    } else {
        f > 0
    }
}

/// Whether the relative difference `(fresh - previous) / previous` lies
/// below `num / den` (the denominator positive).
pub open spec fn rel_diff_below(f: int, p: int, num: int, den: int) -> bool
    recommends
        den >= 1,
{
    if p > 0 {
        den * (f - p) < num * p
    } else if p < 0 {
        den * (f - p) > num * p
    } else {
        f < 0
    }
}

/// The relative difference is invariant under scaling both values by any
/// positive factor. The configured rdc-to-ohm conversion is a positive linear
/// map, so comparing the tolerance bands over raw rdc codes decides exactly
/// the same predicate as comparing them over the (exact) ohm values.
pub proof fn lemma_rel_diff_scale_invariant(f: int, p: int, k: int, num: int, den: int)
    requires
        k >= 1,
        den >= 1,
    ensures
        rel_diff_above(f * k, p * k, num, den) == rel_diff_above(f, p, num, den),
        rel_diff_below(f * k, p * k, num, den) == rel_diff_below(f, p, num, den),
{
    assert((p * k > 0) == (p > 0)) by (nonlinear_arith)
        requires
            k >= 1,
    ;
    assert((p * k < 0) == (p < 0)) by (nonlinear_arith)
        requires
            k >= 1,
    ;
    assert((f * k > 0) == (f > 0)) by (nonlinear_arith)
        requires
            k >= 1,
    ;
    assert((f * k < 0) == (f < 0)) by (nonlinear_arith)
        requires
            k >= 1,
    ;
    assert((den * (f * k - p * k) > num * (p * k)) == (den * (f - p) > num * p))
        by (nonlinear_arith)
        requires
            k >= 1,
    ;
    assert((den * (f * k - p * k) < num * (p * k)) == (den * (f - p) < num * p))
        by (nonlinear_arith)
        requires
            k >= 1,
    ;
}

/// Upper tolerance band of the arbitration, as the ratio 3/10 (0.3).
pub const CALI_ERROR_UPPER_LIMIT_NUM: i64 = 3;

/// Denominator of the upper tolerance band.
pub const CALI_ERROR_UPPER_LIMIT_DEN: i64 = 10;

/// Lower tolerance band of the arbitration, as the ratio 3/100 (0.03).
pub const CALI_ERROR_LOWER_LIMIT_NUM: i64 = 3;

/// Denominator of the lower tolerance band.
pub const CALI_ERROR_LOWER_LIMIT_DEN: i64 = 100;

/// Measuring is presumed unsafe within this many seconds of shutdown.
pub const SPEAKER_COOL_DOWN_TIME: u64 = 180;

/// How many times the internal speaker node is probed before giving up.
pub const SPEAKER_READY_RETRY: usize = 3;

/// The pause between speaker probes, in milliseconds.
pub const SPEAKER_READY_RETRY_INTERVAL_MS: u64 = 500;

/// Decides `rel_diff_above` on machine integers.
fn diff_above(f: i32, p: i32, num: i64, den: i64) -> (r: bool)
    requires
        1 <= den <= 1000,
        0 <= num <= 1000,
    ensures
        r == rel_diff_above(f as int, p as int, num as int, den as int),
{
    let fd: i64 = f as i64 - p as i64;
    proof {
        assert(-0x800_0000_0000 <= den * (fd as int) <= 0x800_0000_0000) by (nonlinear_arith)
            requires
                1 <= den <= 1000 && -0x1_0000_0000 <= fd as int <= 0x1_0000_0000,
        ;
        assert(-0x800_0000_0000 <= num * (p as int) <= 0x800_0000_0000) by (nonlinear_arith)
            requires
                0 <= num <= 1000 && -0x8000_0000 <= p as int <= 0x8000_0000,
        ;
    }
    if p > 0 {
        den * fd > num * (p as i64)
    } else if p < 0 {
        den * fd < num * (p as i64)
    } else {
        f > 0
    }
}

/// Decides `rel_diff_below` on machine integers.
fn diff_below(f: i32, p: i32, num: i64, den: i64) -> (r: bool)
    requires
        1 <= den <= 1000,
        0 <= num <= 1000,
    ensures
        r == rel_diff_below(f as int, p as int, num as int, den as int),
{
    let fd: i64 = f as i64 - p as i64;
    proof {
        assert(-0x800_0000_0000 <= den * (fd as int) <= 0x800_0000_0000) by (nonlinear_arith)
            requires
                1 <= den <= 1000 && -0x1_0000_0000 <= fd as int <= 0x1_0000_0000,
        ;
        assert(-0x800_0000_0000 <= num * (p as int) <= 0x800_0000_0000) by (nonlinear_arith)
            requires
                0 <= num <= 1000 && -0x8000_0000 <= p as int <= 0x8000_0000,
        ;
    }
    if p > 0 {
        den * fd < num * (p as i64)
    } else if p < 0 {
        den * fd > num * (p as i64)
    } else {
        f < 0
    }
}

/// Whether the record rules out measuring: it exists but is unreadable, the
/// shutdown time precedes the run-start time, or the shutdown time lies in
/// the future.
pub open spec fn spec_time_record_invalid(record: TimeRecord, now: u64) -> bool {
    match record {
        TimeRecord::FirstBoot => false,
        TimeRecord::Unreadable => true,
        TimeRecord::Times { run, shutdown } => shutdown < run || now < shutdown,
    }
}

/// Whether a valid record places this boot inside the cool-down window, so
/// the speakers are presumed still hot.
pub open spec fn spec_presumed_hot(record: TimeRecord, now: u64) -> bool {
    match record {
        TimeRecord::Times { run, shutdown } => run <= shutdown && shutdown <= now && now - shutdown
            < SPEAKER_COOL_DOWN_TIME,
        _ => false,
    }
}

/// The error for a channel whose stored record denotes no value.
pub open spec fn spec_stored_error(ch: int, stored: Option<Datastore>) -> Error {
    if stored is None {
        Error::MissingDatastore(ch as usize)
    } else {
        Error::MissingVpd(ch as usize)
    }
}

/// One step of the bounded wait for the internal speaker node: `found` is
/// the outcome of the probe just made, `attempts` the number of probes made
/// so far, this one included. The node is probed at most
/// `SPEAKER_READY_RETRY` times, `SPEAKER_READY_RETRY_INTERVAL_MS` apart, and
/// the wait then fails terminally rather than block forever.
#[derive(Clone, Copy, Debug, PartialEq, Eq, Structural)]
pub enum WaitStep {
    /// The speaker is present; the wait is over.
    Ready,
    /// Probe again after this many milliseconds.
    RetryAfterMs(u64),
    /// Give up with this error: the speaker never appeared.
    GiveUp(Error),
}

/// The decision engine for one device: its sound card name, channel count,
/// unit conversions and temperature bounds, fixed for the engine's lifetime.
pub struct DSM {
    /// The sound card name; store paths derive from it.
    pub snd_card: String,
    /// How many amplifier channels the device has.
    pub num_channels: usize,
    /// Conversion between the store's temperature unit and centidegrees.
    pub temp_converter: TempConverter,
    /// Conversion from rdc codes to micro-ohms.
    pub rdc_to_ohm: OhmScale,
    /// Highest acceptable measured temperature, centidegrees Celsius.
    pub temp_upper_limit: i64,
    /// Lowest acceptable measured temperature, centidegrees Celsius.
    pub temp_lower_limit: i64,
}

impl DSM {
    /// A well-formed engine: meaningful conversions, ordered temperature
    /// bounds of sane magnitude whose persisted codes fit the store's width.
    pub open spec fn wf(&self) -> bool {
        &&& self.temp_converter.wf()
        &&& self.rdc_to_ohm.wf()
        &&& self.temp_lower_limit <= self.temp_upper_limit
        &&& -0x4000_0000 <= self.temp_lower_limit
        &&& self.temp_upper_limit <= 0x4000_0000
        &&& -0x8000_0000 <= self.temp_converter.spec_to_vpd(self.temp_lower_limit as int)
        &&& self.temp_converter.spec_to_vpd(self.temp_upper_limit as int) <= 0x7fff_ffff
    }

    /// Creates an engine with the default temperature converter.
    pub fn new(
        snd_card: &str,
        num_channels: usize,
        rdc_to_ohm: OhmScale,
        temp_upper_limit: i64,
        temp_lower_limit: i64,
    ) -> (r: DSM)
        requires
            rdc_to_ohm.wf(),
            temp_lower_limit <= temp_upper_limit,
            -0x4000_0000 <= temp_lower_limit,
            temp_upper_limit <= 0x4000_0000,
        ensures
            r.wf(),
            r.snd_card@ == snd_card@,
            r.num_channels == num_channels,
            r.temp_converter == (TempConverter { scale: 100 as i32, offset: 0 as i32 }),
            r.rdc_to_ohm == rdc_to_ohm,
            r.temp_upper_limit == temp_upper_limit,
            r.temp_lower_limit == temp_lower_limit,
    {
        let tc: TempConverter = Default::default();
        proof {
            crate::arith::lemma_round_div_ordered(-0x4000_0000, temp_lower_limit as int, 100);
            crate::arith::lemma_round_div_ordered(temp_upper_limit as int, 0x4000_0000, 100);
        }
        DSM {
            snd_card: snd_card.to_owned(),
            num_channels,
            temp_converter: tc,
            rdc_to_ohm,
            temp_upper_limit,
            temp_lower_limit,
        }
    }

    /// Replaces the temperature converter; the configured bounds must still
    /// convert to codes that fit the store's width.
    pub fn set_temp_converter(&mut self, temp_converter: TempConverter)
        requires
            old(self).wf(),
            temp_converter.wf(),
            -0x8000_0000 <= temp_converter.spec_to_vpd(old(self).temp_lower_limit as int),
            temp_converter.spec_to_vpd(old(self).temp_upper_limit as int) <= 0x7fff_ffff,
        ensures
            final(self).wf(),
            final(self).temp_converter == temp_converter,
            final(self).snd_card == old(self).snd_card,
            final(self).num_channels == old(self).num_channels,
            final(self).rdc_to_ohm == old(self).rdc_to_ohm,
            final(self).temp_upper_limit == old(self).temp_upper_limit,
            final(self).temp_lower_limit == old(self).temp_lower_limit,
    {
        self.temp_converter = temp_converter;
    }

    /// Whether a measured temperature (centidegrees) is acceptable.
    pub open spec fn spec_temp_in_range(&self, t: int) -> bool {
        self.temp_lower_limit <= t <= self.temp_upper_limit
    }

    /// The value a stored record denotes: a measured record carries its own
    /// pair (its temperature converted to centidegrees), a `UseVPD` record
    /// defers to the factory value, and a missing record denotes nothing.
    pub open spec fn spec_stored_value(
        &self,
        stored: Option<Datastore>,
        vpd: Option<VpdValue>,
    ) -> Option<CalibData> {
        match stored {
            None => None,
            Some(Datastore::UseVPD) => self.spec_vpd_value(vpd),
            Some(Datastore::DSM { rdc, temp }) => Some(
                (CalibData {
                    rdc,
                    temp: self.temp_converter.spec_to_celsius(temp as int) as i64,
                }),
            ),
        }
    }

    /// The value the factory defaults denote, if present.
    pub open spec fn spec_vpd_value(&self, vpd: Option<VpdValue>) -> Option<CalibData> {
        match vpd {
            None => None,
            Some(v) => Some(
                (CalibData {
                    rdc: v.rdc,
                    temp: self.temp_converter.spec_to_celsius(v.temp as int) as i64,
                }),
            ),
        }
    }

    /// The previous value the arbitration measures against: the stored
    /// record's value if it denotes one, else the factory value.
    pub open spec fn spec_previous_value(
        &self,
        stored: Option<Datastore>,
        vpd: Option<VpdValue>,
    ) -> Option<CalibData> {
        match self.spec_stored_value(stored, vpd) {
            Some(c) => Some(c),
            None => self.spec_vpd_value(vpd),
        }
    }

    /// Whether this is the first boot ever: no run-start record exists.
    pub fn is_first_boot(&self, record: TimeRecord) -> (r: bool)
        ensures
            r == (record == TimeRecord::FirstBoot),
    {
        match record {
            TimeRecord::FirstBoot => true,
            _ => false,
        }
    }

    /// Whether the speakers are presumed still hot: the elapsed time since
    /// the recorded shutdown lies inside the cool-down window. A shutdown
    /// time before the run-start time, or in the future, is inconsistent.
    pub fn is_speaker_over_heated(&self, last_run: u64, last_shutdown: u64, now: u64) -> (r: Result<
        bool,
        Error,
    >)
        ensures
            r == (if last_shutdown < last_run || now < last_shutdown {
                Err::<bool, Error>(Error::InvalidShutDownTime)
            } else {
                Ok::<bool, Error>(now - last_shutdown < SPEAKER_COOL_DOWN_TIME)
            }),
    {
        if last_shutdown < last_run {
            return Err(Error::InvalidShutDownTime);
        }
        if now < last_shutdown {
            return Err(Error::InvalidShutDownTime);
        }
        Ok(now - last_shutdown < SPEAKER_COOL_DOWN_TIME)
    }

    /// The previous calibration value of one channel, from its stored record
    /// (Phase A: a channel with no stored record is an error, not a silent
    /// fallback to the factory value).
    pub fn get_previous_calibration_value(
        &self,
        ch: usize,
        stored: Option<Datastore>,
        vpd: Option<VpdValue>,
    ) -> (r: Result<CalibData, Error>)
        requires
            self.temp_converter.wf(),
        ensures
            r == (match self.spec_stored_value(stored, vpd) {
                Some(c) => Ok::<CalibData, Error>(c),
                None => Err::<CalibData, Error>(spec_stored_error(ch as int, stored)),
            }),
    {
        match stored {
            None => Err(Error::MissingDatastore(ch)),
            Some(Datastore::UseVPD) => self.get_vpd_calibration_value(ch, vpd),
            Some(Datastore::DSM { rdc, temp }) => {
                let celsius: i64 = self.temp_converter.vpd_to_celsius(temp);
                Ok(CalibData { rdc, temp: celsius })
            },
        }
    }

    /// The factory-default calibration value of one channel.
    pub fn get_vpd_calibration_value(&self, ch: usize, vpd: Option<VpdValue>) -> (r: Result<
        CalibData,
        Error,
    >)
        requires
            self.temp_converter.wf(),
        ensures
            r == (match self.spec_vpd_value(vpd) {
                Some(c) => Ok::<CalibData, Error>(c),
                None => Err::<CalibData, Error>(Error::MissingVpd(ch)),
            }),
    {
        match vpd {
            None => Err(Error::MissingVpd(ch)),
            Some(v) => {
                let celsius: i64 = self.temp_converter.vpd_to_celsius(v.temp);
                Ok(CalibData { rdc: v.rdc, temp: celsius })
            },
        }
    }

    /// The factory-default calibration values of every channel, in channel
    /// order; the error names the first channel with no factory value.
    #[verifier::loop_isolation(false)]
    pub fn get_all_vpd_calibration_value(&self, vpd: &Vec<Option<VpdValue>>) -> (r: Result<
        Vec<CalibData>,
        Error,
    >)
        requires
            self.temp_converter.wf(),
            vpd@.len() == self.num_channels,
        ensures
            (match r {
                Ok(v) => v@.len() == self.num_channels && (forall|ch: int|
                    0 <= ch < v@.len() ==> self.spec_vpd_value(vpd@[ch]) == Some(#[trigger] v@[ch])),
                Err(e) => exists|ch: int|
                    0 <= ch < self.num_channels && (forall|j: int|
                        0 <= j < ch ==> (#[trigger] vpd@[j]) is Some) && vpd@[ch] is None && e
                        == Error::MissingVpd(ch as usize),
            }),
    {
        let mut v: Vec<CalibData> = Vec::new();
        let mut ch: usize = 0;
        while ch < self.num_channels
            invariant
                ch <= self.num_channels,
                v@.len() == ch,
                vpd@.len() == self.num_channels,
                self.temp_converter.wf(),
                forall|j: int| 0 <= j < ch ==> (#[trigger] vpd@[j]) is Some,
                forall|j: int|
                    0 <= j < ch ==> self.spec_vpd_value(vpd@[j]) == Some(#[trigger] v@[j]),
            decreases self.num_channels - ch,
        {
            match self.get_vpd_calibration_value(ch, vpd[ch]) {
                Ok(c) => {
                    v.push(c);
                },
                Err(e) => {
                    return Err(e);
                },
            }
            ch = ch + 1;
        }
        Ok(v)
    }

    /// Phase A, the thermal-safety gate. On a first boot the speakers are
    /// cold unconditionally. An invalid elapsed-time record fails with
    /// `InvalidShutDownTime` and commands the caller to purge every channel's
    /// stored record first. Inside the cool-down window the speakers are
    /// presumed hot and every channel's previous value is returned; a channel
    /// with no usable previous value is then a fatal error, never an invented
    /// value. Outside the window the speakers are cold.
    #[verifier::loop_isolation(false)]
    pub fn check_speaker_over_heated_workflow(
        &self,
        record: TimeRecord,
        now: u64,
        stored: &Vec<Option<Datastore>>,
        vpd: &Vec<Option<VpdValue>>,
    ) -> (r: ThermalOutcome)
        requires
            self.wf(),
            stored@.len() == self.num_channels,
            vpd@.len() == self.num_channels,
        ensures
            r.purge_datastore == (r.status == Err::<SpeakerStatus, Error>(
                Error::InvalidShutDownTime,
            )),
            spec_time_record_invalid(record, now) == (r.status == Err::<SpeakerStatus, Error>(
                Error::InvalidShutDownTime,
            )),
            record == TimeRecord::FirstBoot ==> r.status == Ok::<SpeakerStatus, Error>(
                SpeakerStatus::Cold,
            ),
            !spec_time_record_invalid(record, now) && !spec_presumed_hot(record, now)
                ==> r.status == Ok::<SpeakerStatus, Error>(SpeakerStatus::Cold),
            spec_presumed_hot(record, now) ==> (match r.status {
                Ok(SpeakerStatus::Hot(v)) => v@.len() == self.num_channels && (forall|ch: int|
                    0 <= ch < v@.len() ==> self.spec_stored_value(stored@[ch], vpd@[ch]) == Some(
                        #[trigger] v@[ch],
                    )),
                Ok(SpeakerStatus::Cold) => false,
                Err(e) => exists|ch: int|
                    0 <= ch < self.num_channels && (forall|j: int|
                        0 <= j < ch ==> (#[trigger] self.spec_stored_value(stored@[j], vpd@[j]))
                            is Some) && self.spec_stored_value(stored@[ch], vpd@[ch]) is None && e
                        == spec_stored_error(ch, stored@[ch]),
            }),
    {
        match record {
            TimeRecord::FirstBoot => ThermalOutcome {
                status: Ok(SpeakerStatus::Cold),
                purge_datastore: false,
            },
            TimeRecord::Unreadable => ThermalOutcome {
                status: Err(Error::InvalidShutDownTime),
                purge_datastore: true,
            },
            TimeRecord::Times { run, shutdown } => {
                match self.is_speaker_over_heated(run, shutdown, now) {
                    Err(e) => ThermalOutcome { status: Err(e), purge_datastore: true },
                    Ok(false) => ThermalOutcome {
                        status: Ok(SpeakerStatus::Cold),
                        purge_datastore: false,
                    },
                    Ok(true) => {
                        let mut v: Vec<CalibData> = Vec::new();
                        let mut ch: usize = 0;
                        while ch < self.num_channels
                            invariant
                                ch <= self.num_channels,
                                v@.len() == ch,
                                stored@.len() == self.num_channels,
                                vpd@.len() == self.num_channels,
                                self.temp_converter.wf(),
                                forall|j: int|
                                    0 <= j < ch ==> (#[trigger] self.spec_stored_value(
                                        stored@[j],
                                        vpd@[j],
                                    )) is Some,
                                forall|j: int|
                                    0 <= j < ch ==> self.spec_stored_value(stored@[j], vpd@[j])
                                        == Some(#[trigger] v@[j]),
                            decreases self.num_channels - ch,
                        {
                            match self.get_previous_calibration_value(ch, stored[ch], vpd[ch]) {
                                Ok(c) => {
                                    v.push(c);
                                },
                                Err(e) => {
                                    return ThermalOutcome {
                                        status: Err(e),
                                        purge_datastore: false,
                                    };
                                },
                            }
                            ch = ch + 1;
                        }
                        ThermalOutcome { status: Ok(SpeakerStatus::Hot(v)), purge_datastore: false }
                    },
                }
            },
        }
    }

    /// The arbitration outcome, in full. A fresh measurement whose
    /// temperature is out of bounds falls back to the previous value and
    /// persists nothing, failing with `InvalidTemperature` only when no
    /// previous value exists. Otherwise the fresh rdc is compared against
    /// the previous one: a relative difference above the upper tolerance is
    /// implausible and fails with `LargeCalibrationDiff`; one below the
    /// lower tolerance keeps the previous value (recording `UseVPD` if no
    /// record existed yet); anything between accepts the fresh value and
    /// persists it as a measured record.
    pub open spec fn spec_decide(
        &self,
        channel: int,
        fresh: CalibData,
        stored: Option<Datastore>,
        vpd: Option<VpdValue>,
    ) -> Arbitration {
        match self.spec_previous_value(stored, vpd) {
            None => {
                if !self.spec_temp_in_range(fresh.temp as int) {
                    Arbitration {
                        value: Err(Error::InvalidTemperature(fresh.temp)),
                        save: None,
                    }
                } else {
                    Arbitration { value: Err(Error::MissingVpd(channel as usize)), save: None }
                }
            },
            Some(prev) => {
                if !self.spec_temp_in_range(fresh.temp as int) {
                    Arbitration { value: Ok(prev), save: None }
                } else if rel_diff_above(
                    fresh.rdc as int,
                    prev.rdc as int,
                    CALI_ERROR_UPPER_LIMIT_NUM as int,
                    CALI_ERROR_UPPER_LIMIT_DEN as int,
                ) {
                    Arbitration { value: Err(Error::LargeCalibrationDiff(fresh)), save: None }
                } else if rel_diff_below(
                    fresh.rdc as int,
                    prev.rdc as int,
                    CALI_ERROR_LOWER_LIMIT_NUM as int,
                    CALI_ERROR_LOWER_LIMIT_DEN as int,
                ) {
                    Arbitration {
                        value: Ok(prev),
                        save: if self.spec_stored_value(stored, vpd) is Some {
                            None
                        } else {
                            Some(Datastore::UseVPD)
                        },
                    }
                } else {
                    Arbitration {
                        value: Ok(fresh),
                        save: Some(
                            (Datastore::DSM {
                                rdc: fresh.rdc,
                                temp: self.temp_converter.spec_to_vpd(fresh.temp as int) as i32,
                            }),
                        ),
                    }
                }
            },
        }
    }

    /// Phase B, the arbitration for one channel, given a fresh boot-time
    /// measurement and snapshots of the channel's stored record and factory
    /// defaults. Returns the value to apply together with the record to
    /// persist, exactly as `spec_decide` describes.
    pub fn decide_calibration_value_workflow(
        &self,
        channel: usize,
        calib_data: CalibData,
        stored: Option<Datastore>,
        vpd: Option<VpdValue>,
    ) -> (r: Arbitration)
        requires
            self.wf(),
        ensures
            r == self.spec_decide(channel as int, calib_data, stored, vpd),
            (match self.spec_previous_value(stored, vpd) {
                Some(prev) => {
                    &&& (self.spec_temp_in_range(calib_data.temp as int) && rel_diff_above(
                        calib_data.rdc as int,
                        prev.rdc as int,
                        3,
                        10,
                    ) ==> r.value == Err::<CalibData, Error>(
                        Error::LargeCalibrationDiff(calib_data),
                    ) && r.save is None)
                    &&& (self.spec_temp_in_range(calib_data.temp as int) && !rel_diff_above(
                        calib_data.rdc as int,
                        prev.rdc as int,
                        3,
                        10,
                    ) && !rel_diff_below(calib_data.rdc as int, prev.rdc as int, 3, 100)
                        ==> r.value == Ok::<CalibData, Error>(calib_data) && r.save == Some(
                        (Datastore::DSM {
                            rdc: calib_data.rdc,
                            temp: self.temp_converter.spec_to_vpd(calib_data.temp as int) as i32,
                        }),
                    ))
                },
                None => true,
            }),
    {
        let datastore_exist: bool;
        let previous: Option<CalibData>;
        match self.get_previous_calibration_value(channel, stored, vpd) {
            Ok(p) => {
                datastore_exist = true;
                previous = Some(p);
            },
            Err(_) => {
                datastore_exist = false;
                previous = match self.get_vpd_calibration_value(channel, vpd) {
                    Ok(p) => Some(p),
                    Err(_) => None,
                };
            },
        }
        if calib_data.temp < self.temp_lower_limit || calib_data.temp > self.temp_upper_limit {
            match previous {
                Some(p) => Arbitration { value: Ok(p), save: None },
                None => Arbitration {
                    value: Err(Error::InvalidTemperature(calib_data.temp)),
                    save: None,
                },
            }
        } else {
            match previous {
                None => Arbitration { value: Err(Error::MissingVpd(channel)), save: None },
                Some(p) => {
                    if diff_above(
                        calib_data.rdc,
                        p.rdc,
                        CALI_ERROR_UPPER_LIMIT_NUM,
                        CALI_ERROR_UPPER_LIMIT_DEN,
                    ) {
                        Arbitration {
                            value: Err(Error::LargeCalibrationDiff(calib_data)),
                            save: None,
                        }
                    } else if diff_below(
                        calib_data.rdc,
                        p.rdc,
                        CALI_ERROR_LOWER_LIMIT_NUM,
                        CALI_ERROR_LOWER_LIMIT_DEN,
                    ) {
                        Arbitration {
                            value: Ok(p),
                            save: if datastore_exist {
                                None
                            } else {
                                Some(Datastore::UseVPD)
                            },
                        }
                    } else {
                        proof {
                            lemma_to_vpd_ordered(
                                self.temp_converter,
                                self.temp_lower_limit as int,
                                calib_data.temp as int,
                            );
                            lemma_to_vpd_ordered(
                                self.temp_converter,
                                calib_data.temp as int,
                                self.temp_upper_limit as int,
                            );
                        }
                        let code: i32 = self.temp_converter.celsius_to_vpd(calib_data.temp);
                        Arbitration {
                            value: Ok(calib_data),
                            save: Some(Datastore::DSM { rdc: calib_data.rdc, temp: code }),
                        }
                    }
                },
            }
        }
    }

    /// One step of the bounded wait for the internal speaker node.
    pub fn wait_for_speakers_ready_step(&self, attempts: usize, found: bool) -> (r: WaitStep)
        requires
            attempts >= 1,
        ensures
            r == (if found {
                WaitStep::Ready
            } else if attempts < SPEAKER_READY_RETRY {
                WaitStep::RetryAfterMs(SPEAKER_READY_RETRY_INTERVAL_MS)
            } else {
                WaitStep::GiveUp(Error::InternalSpeakerNotFound)
            }),
    {
        if found {
            WaitStep::Ready
        } else if attempts < SPEAKER_READY_RETRY {
            WaitStep::RetryAfterMs(SPEAKER_READY_RETRY_INTERVAL_MS)
        } else {
            WaitStep::GiveUp(Error::InternalSpeakerNotFound)
        }
    }
}

} // verus!
