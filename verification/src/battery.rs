use vstd::prelude::*;
use crate::units::{EFFICIENCY_ONE, ENERGY_MAX, MICROS_PER_HOUR, POWER_MAX};

verus! {

/// `x` brought into `[lo, hi]`: the lower bound is tried first.
pub open spec fn clamp(x: int, lo: int, hi: int) -> int {
    if x < lo {
        lo
    } else if x > hi {
        hi
    } else {
        x
    }
}

/// The energy that a power of `rate` milliwatts moves in `elapsed`
/// microseconds, in whole milliwatt-hours, rounded down.
pub open spec fn rate_limit(rate: int, elapsed: int) -> int {
    rate * elapsed / (MICROS_PER_HOUR as int)
}

/// The largest charge, measured before the efficiency loss, that still fits
/// into the battery. Nothing fits where the efficiency is zero.
pub open spec fn charge_ceiling(capacity: int, stored: int, efficiency: int) -> int {
    if efficiency <= 0 {
        0
    } else {
        (capacity - stored) * (EFFICIENCY_ONE as int) / efficiency
    }
}

/// The largest discharge, as a number at most zero, that the stored energy
/// can still supply.
pub open spec fn discharge_floor(stored: int, efficiency: int) -> int {
    if efficiency <= 0 {
        0
    } else {
        -(stored * (EFFICIENCY_ONE as int) / efficiency)
    }
}

/// By how much the stored energy changes when `clamped` is moved: the
/// efficiency applies in both directions and the result is rounded down.
pub open spec fn stored_change(clamped: int, efficiency: int) -> int {
    clamped * efficiency / (EFFICIENCY_ONE as int)
}

/// What is wrong with a battery's parameters.
#[derive(Clone, Copy, Debug, PartialEq, Eq, Structural)]
pub enum ConfigError {
    /// The capacity is above `ENERGY_MAX`.
    CapacityOutOfRange,
    /// More is stored than the capacity holds.
    StoredExceedsCapacity,
    /// The charging rate is above `POWER_MAX`.
    ChargingRateOutOfRange,
    /// The discharging rate is above `POWER_MAX`.
    DischargingRateOutOfRange,
    /// The efficiency is above one.
    EfficiencyAboveOne,
    /// The efficiency is zero although the battery has a capacity.
    ZeroEfficiency,
}

/// The state of the virtual battery and its physical limits.
#[derive(Clone, Copy, Debug, PartialEq, Eq)]
pub struct Battery {
    /// Stored energy in milliwatt-hours.
    pub stored: u64,
    /// Capacity in milliwatt-hours.
    pub capacity: u64,
    /// Largest charging power in milliwatts.
    pub max_charging_rate: u64,
    /// Largest discharging power in milliwatts.
    pub max_discharging_rate: u64,
    /// Share of a moved amount that reaches or leaves the store, in parts per
    /// million.
    pub efficiency: u32,
}

/// The first fault of a set of battery parameters, in the order of the
/// variants of `ConfigError`, or `None` where they are valid.
pub open spec fn config_error(
    stored: u64,
    capacity: u64,
    max_charging_rate: u64,
    max_discharging_rate: u64,
    efficiency: u32,
) -> Option<ConfigError> {
    if capacity > ENERGY_MAX {
        Some(ConfigError::CapacityOutOfRange)
    } else if stored > capacity {
        Some(ConfigError::StoredExceedsCapacity)
    } else if max_charging_rate > POWER_MAX {
        Some(ConfigError::ChargingRateOutOfRange)
    } else if max_discharging_rate > POWER_MAX {
        Some(ConfigError::DischargingRateOutOfRange)
    } else if efficiency > EFFICIENCY_ONE {
        Some(ConfigError::EfficiencyAboveOne)
    } else if efficiency == 0 && capacity > 0 {
        Some(ConfigError::ZeroEfficiency)
    } else {
        None
    }
}

impl Battery {
    /// The battery's invariant: the stored energy is within the capacity and
    /// every parameter within its range.
    pub open spec fn wf(&self) -> bool {
        &&& self.stored <= self.capacity <= ENERGY_MAX
        &&& self.max_charging_rate <= POWER_MAX
        &&& self.max_discharging_rate <= POWER_MAX
        &&& self.efficiency <= EFFICIENCY_ONE
        &&& (self.efficiency == 0 ==> self.capacity == 0)
    }

    /// The amount that is moved when `goal` is asked for over `elapsed`
    /// microseconds with `stored` in the battery: the goal clamped by the
    /// rates, then by what the battery can take or give.
    pub open spec fn clamped_charge(&self, stored: int, goal: int, elapsed: int) -> int {
        clamp(
            clamp(
                goal,
                -rate_limit(self.max_discharging_rate as int, elapsed),
                rate_limit(self.max_charging_rate as int, elapsed),
            ),
            discharge_floor(stored, self.efficiency as int),
            charge_ceiling(self.capacity as int, stored, self.efficiency as int),
        )
    }

    /// The stored energy after `goal` was asked for over `elapsed`
    /// microseconds with `stored` in the battery.
    pub open spec fn stored_after(&self, stored: int, goal: int, elapsed: int) -> int {
        stored + stored_change(self.clamped_charge(stored, goal, elapsed), self.efficiency as int)
    }

    /// A battery with the given parameters, or the first thing that is wrong
    /// with them.
    pub fn new(
        stored: u64,
        capacity: u64,
        max_charging_rate: u64,
        max_discharging_rate: u64,
        efficiency: u32,
    ) -> (made: Result<Battery, ConfigError>)
        ensures
            made == match config_error(
                stored,
                capacity,
                max_charging_rate,
                max_discharging_rate,
                efficiency,
            ) {
                Some(e) => Err::<Battery, ConfigError>(e),
                None => Ok(
                    (Battery { stored, capacity, max_charging_rate, max_discharging_rate, efficiency }),
                ),
            },
            made is Ok ==> made->Ok_0.wf(),
    {
        if capacity > ENERGY_MAX {
            Err(ConfigError::CapacityOutOfRange)
        } else if stored > capacity {
            Err(ConfigError::StoredExceedsCapacity)
        } else if max_charging_rate > POWER_MAX {
            Err(ConfigError::ChargingRateOutOfRange)
        } else if max_discharging_rate > POWER_MAX {
            Err(ConfigError::DischargingRateOutOfRange)
        } else if efficiency > EFFICIENCY_ONE {
            Err(ConfigError::EfficiencyAboveOne)
        } else if efficiency == 0 && capacity > 0 {
            Err(ConfigError::ZeroEfficiency)
        } else {
            Ok(Battery { stored, capacity, max_charging_rate, max_discharging_rate, efficiency })
        }
    }

    /// Moves as much of `goal` as the rates allow over `elapsed`
    /// microseconds and as the battery can take or give, and returns the
    /// amount moved: positive for charging, negative for discharging.
    pub fn charge(&mut self, goal: i64, elapsed: u64) -> (clamped: i64)
        requires
            old(self).wf(),
        ensures
            clamped == old(self).clamped_charge(old(self).stored as int, goal as int, elapsed as int),
            final(self).stored == old(self).stored_after(
                old(self).stored as int,
                goal as int,
                elapsed as int,
            ),
            final(self).capacity == old(self).capacity,
            final(self).max_charging_rate == old(self).max_charging_rate,
            final(self).max_discharging_rate == old(self).max_discharging_rate,
            final(self).efficiency == old(self).efficiency,
            final(self).wf(),
    {
        let hour: u128 = MICROS_PER_HOUR as u128;
        let one: u128 = EFFICIENCY_ONE as u128;
        let eff: u128 = self.efficiency as u128;
        proof {
            assert(self.max_charging_rate * elapsed <= POWER_MAX * u64::MAX
                && self.max_discharging_rate * elapsed <= POWER_MAX * u64::MAX)
                by (nonlinear_arith)
                requires
                    self.max_charging_rate <= POWER_MAX,
                    self.max_discharging_rate <= POWER_MAX,
                    elapsed <= u64::MAX,
            ;
            assert(0 <= self.max_charging_rate * elapsed && 0 <= self.max_discharging_rate
                * elapsed) by (nonlinear_arith);
            assert((self.capacity - self.stored) * one <= ENERGY_MAX * one && self.stored * one
                <= ENERGY_MAX * one && 0 <= (self.capacity - self.stored) * one && 0
                <= self.stored * one) by (nonlinear_arith)
                requires
                    self.stored <= self.capacity <= ENERGY_MAX,
                    one == 1_000_000,
            ;
            lemma_capacity_bounds_enclose_zero(
                self.capacity as int,
                self.stored as int,
                self.efficiency as int,
            );
        }
        let up: i128 = ((self.max_charging_rate as u128 * elapsed as u128) / hour) as i128;
        let down: i128 = ((self.max_discharging_rate as u128 * elapsed as u128) / hour) as i128;
        let wanted: i128 = goal as i128;
        let by_rate: i128 = if wanted < -down {
            -down
        } else if wanted > up {
            up
        } else {
            wanted
        };
        let mut ceiling: i128 = 0;
        let mut floor: i128 = 0;
        if self.efficiency > 0 {
            ceiling = (((self.capacity - self.stored) as u128 * one) / eff) as i128;
            floor = -(((self.stored as u128 * one) / eff) as i128);
        }
        let moved: i128 = if by_rate < floor {
            floor
        } else if by_rate > ceiling {
            ceiling
        } else {
            by_rate
        };
        proof {
            lemma_clamp_towards_zero(wanted as int, -down as int, up as int);
            lemma_clamp_towards_zero(by_rate as int, floor as int, ceiling as int);
            lemma_capacity_bounds(
                self.capacity as int,
                self.stored as int,
                self.efficiency as int,
                moved as int,
            );
        }
        if moved >= 0 {
            proof {
                assert(0 <= moved * eff <= i64::MAX * one) by (nonlinear_arith)
                    requires
                        0 <= moved <= i64::MAX,
                        0 <= eff <= one,
                ;
            }
            let gained: u128 = (moved as u128 * eff) / one;
            self.stored = self.stored + gained as u64;
        } else {
            let given: u128 = (-moved) as u128;
            proof {
                assert(0 <= given * eff <= (i64::MAX + 1) * one) by (nonlinear_arith)
                    requires
                        0 <= given <= i64::MAX + 1,
                        0 <= eff <= one,
                ;
                assert(moved * eff == -(given * eff)) by (nonlinear_arith)
                    requires
                        moved == -given,
                ;
            }
            let lost: u128 = (given * eff + 999_999) / one;
            self.stored = self.stored - lost as u64;
        }
        moved as i64
    }

    /// The battery of the baseline run: no capacity and no rates, so that it
    /// never moves any energy.
    pub fn baseline() -> (b: Battery)
        ensures
            b == (Battery {
                stored: 0,
                capacity: 0,
                max_charging_rate: 0,
                max_discharging_rate: 0,
                efficiency: EFFICIENCY_ONE,
            }),
            b.wf(),
    {
        Battery {
            stored: 0,
            capacity: 0,
            max_charging_rate: 0,
            max_discharging_rate: 0,
            efficiency: EFFICIENCY_ONE,
        }
    }
}

/// A clamp between a bound at most zero and a bound at least zero moves its
/// argument towards zero and never past it.
pub proof fn lemma_clamp_towards_zero(x: int, lo: int, hi: int)
    requires
        lo <= 0 <= hi,
    ensures
        x >= 0 ==> 0 <= clamp(x, lo, hi) <= x,
        x <= 0 ==> x <= clamp(x, lo, hi) <= 0,
        lo <= clamp(x, lo, hi) <= hi,
{
}

/// The two capacity bounds enclose zero.
pub proof fn lemma_capacity_bounds_enclose_zero(capacity: int, stored: int, efficiency: int)
    requires
        0 <= stored <= capacity,
    ensures
        discharge_floor(stored, efficiency) <= 0 <= charge_ceiling(capacity, stored, efficiency),
{
    let one = EFFICIENCY_ONE as int;
    if efficiency > 0 {
        let room = (capacity - stored) * one;
        let held = stored * one;
        assert(0 <= room && 0 <= held) by (nonlinear_arith)
            requires
                0 <= stored <= capacity,
                one == 1_000_000,
                room == (capacity - stored) * one,
                held == stored * one,
        ;
        assert(0 <= room / efficiency && 0 <= held / efficiency) by (nonlinear_arith)
            requires
                0 <= room,
                0 <= held,
                0 < efficiency,
        ;
    }
}

/// Any amount between the two capacity bounds leaves the stored energy
/// within the capacity.
pub proof fn lemma_capacity_bounds(capacity: int, stored: int, efficiency: int, moved: int)
    requires
        0 <= stored <= capacity,
        0 <= efficiency,
        discharge_floor(stored, efficiency) <= moved <= charge_ceiling(
            capacity,
            stored,
            efficiency,
        ),
    ensures
        0 <= stored + stored_change(moved, efficiency) <= capacity,
{
    let one = EFFICIENCY_ONE as int;
    if efficiency == 0 {
        assert(moved == 0);
        assert(moved * efficiency == 0);
    } else {
        let room = (capacity - stored) * one;
        let held = stored * one;
        let up = room / efficiency;
        let down = held / efficiency;
        assert(0 <= room && 0 <= held) by (nonlinear_arith)
            requires
                0 <= stored <= capacity,
                one == 1_000_000,
                room == (capacity - stored) * one,
                held == stored * one,
        ;
        assert(0 <= up && up * efficiency <= room) by (nonlinear_arith)
            requires
                0 <= room,
                0 < efficiency,
                up == room / efficiency,
        ;
        assert(0 <= down && down * efficiency <= held) by (nonlinear_arith)
            requires
                0 <= held,
                0 < efficiency,
                down == held / efficiency,
        ;
        assert(-held <= moved * efficiency <= room) by (nonlinear_arith)
            requires
                -down <= moved <= up,
                0 < efficiency,
                up * efficiency <= room,
                down * efficiency <= held,
        ;
    }
}

/// Whatever is asked for and however long the step, the stored energy stays
/// between zero and the capacity.
pub proof fn lemma_charge_keeps_invariant(battery: Battery, stored: int, goal: int, elapsed: int)
    requires
        0 <= stored <= battery.capacity,
    ensures
        0 <= battery.stored_after(stored, goal, elapsed) <= battery.capacity,
{
    let eff = battery.efficiency as int;
    let cap = battery.capacity as int;
    let lo = discharge_floor(stored, eff);
    let hi = charge_ceiling(cap, stored, eff);
    lemma_capacity_bounds_enclose_zero(cap, stored, eff);
    let moved = battery.clamped_charge(stored, goal, elapsed);
    assert(lo <= moved <= hi);
    lemma_capacity_bounds(cap, stored, eff, moved);
}

} // verus!
