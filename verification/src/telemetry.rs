//! The telemetry snapshot as the dashboard reads it.

use vstd::prelude::*;

verus! {

/// One tick's sampled telemetry. Every field is a fixed-point value in
/// hundredths of its display unit (metres, seconds, degrees, pascals,
/// metres per second): exactly the two-decimal precision the panel shows.
/// A snapshot is created fresh each tick, read once, and discarded.
#[derive(Clone, Copy, PartialEq, Eq, Structural, Debug)]
pub struct Telemetry {
    pub periapsis: i64,
    pub time_to_periapsis: i64,
    pub apoapsis: i64,
    pub time_to_apoapsis: i64,
    pub inclination: i64,
    pub dynamic_pressure: i64,
    pub surface_speed: i64,
    pub orbital_speed: i64,
    pub mean_altitude: i64,
    pub surface_altitude: i64,
}

} // verus!
