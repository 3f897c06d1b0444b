//! Boot-time calibration engine for smart speaker amplifiers.
//!
//! The crate decides, per amplifier channel, a safe DC-resistance ("rdc") and
//! ambient-temperature calibration pair: a thermal-safety gate refuses to
//! measure a speaker that may still be hot, an arbitration step compares a
//! fresh measurement against the previous one within tolerance bands, and a
//! small textual record format persists the accepted value across boots.
//!
//! All quantities are exact integers: temperatures are centidegrees Celsius,
//! resistances are the amplifier's native fixed-point codes, and resistance
//! converted to a physical unit is micro-ohms.

pub mod arith;
pub mod datastore;
pub mod engine;
pub mod max98373;
pub mod temperature;
pub mod text;

pub use datastore::Datastore;
pub use engine::CalibData;
pub use engine::Error;
pub use engine::SpeakerStatus;
pub use engine::DSM;
pub use temperature::TempConverter;
