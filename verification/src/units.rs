use vstd::prelude::*;

verus! {

/// Length of one control step, in microseconds.
pub const ONE_MINUTE: i64 = 60_000_000;

/// Microseconds in one hour.
pub const MICROS_PER_HOUR: i64 = 3_600_000_000;

/// Two consecutive readings further apart than this many microseconds form a gap.
pub const GAP_THRESHOLD: i64 = 5_000_000;

/// Largest value of a cumulative energy counter and of a battery capacity, in
/// milliwatt-hours (a billion kWh).
pub const ENERGY_MAX: u64 = 1_000_000_000_000_000;

/// Largest charging or discharging rate, in milliwatts.
pub const POWER_MAX: u64 = 1_000_000_000_000_000;

/// The efficiency of a lossless battery, in parts per million.
pub const EFFICIENCY_ONE: u32 = 1_000_000;

} // verus!
