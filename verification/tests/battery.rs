use battery_sim::battery::{Battery, ConfigError};
use battery_sim::units::{EFFICIENCY_ONE, ENERGY_MAX, POWER_MAX};

const MINUTE: u64 = 60_000_000;

fn battery(stored: u64, capacity: u64, rate: u64, efficiency: u32) -> Battery {
    Battery::new(stored, capacity, rate, rate, efficiency).unwrap()
}

#[test]
fn new_keeps_the_parameters() {
    let b = Battery::new(1, 2, 3, 4, 5).unwrap();
    assert_eq!(
        b,
        Battery {
            stored: 1,
            capacity: 2,
            max_charging_rate: 3,
            max_discharging_rate: 4,
            efficiency: 5
        }
    );
}

#[test]
fn new_accepts_the_largest_values() {
    assert!(Battery::new(ENERGY_MAX, ENERGY_MAX, POWER_MAX, POWER_MAX, EFFICIENCY_ONE).is_ok());
}

#[test]
fn new_rejects_a_capacity_out_of_range() {
    assert_eq!(
        Battery::new(0, ENERGY_MAX + 1, 0, 0, EFFICIENCY_ONE),
        Err(ConfigError::CapacityOutOfRange)
    );
}

#[test]
fn new_rejects_more_stored_than_capacity() {
    assert_eq!(
        Battery::new(11, 10, 0, 0, EFFICIENCY_ONE),
        Err(ConfigError::StoredExceedsCapacity)
    );
}

#[test]
fn new_rejects_a_charging_rate_out_of_range() {
    assert_eq!(
        Battery::new(0, 10, POWER_MAX + 1, 0, EFFICIENCY_ONE),
        Err(ConfigError::ChargingRateOutOfRange)
    );
}

#[test]
fn new_rejects_a_discharging_rate_out_of_range() {
    assert_eq!(
        Battery::new(0, 10, 0, POWER_MAX + 1, EFFICIENCY_ONE),
        Err(ConfigError::DischargingRateOutOfRange)
    );
}

#[test]
fn new_rejects_an_efficiency_above_one() {
    assert_eq!(
        Battery::new(0, 10, 0, 0, EFFICIENCY_ONE + 1),
        Err(ConfigError::EfficiencyAboveOne)
    );
}

#[test]
fn new_rejects_zero_efficiency_with_capacity() {
    assert_eq!(Battery::new(0, 10, 0, 0, 0), Err(ConfigError::ZeroEfficiency));
}

#[test]
fn new_accepts_zero_efficiency_without_capacity() {
    assert!(Battery::new(0, 0, 5, 5, 0).is_ok());
}

#[test]
fn new_reports_the_first_fault() {
    assert_eq!(
        Battery::new(ENERGY_MAX + 2, ENERGY_MAX + 1, POWER_MAX + 1, POWER_MAX + 1, 0),
        Err(ConfigError::CapacityOutOfRange)
    );
    assert_eq!(
        Battery::new(11, 10, POWER_MAX + 1, POWER_MAX + 1, EFFICIENCY_ONE + 1),
        Err(ConfigError::StoredExceedsCapacity)
    );
}

#[test]
fn baseline_has_no_capacity_and_no_rates() {
    assert_eq!(
        Battery::baseline(),
        Battery {
            stored: 0,
            capacity: 0,
            max_charging_rate: 0,
            max_discharging_rate: 0,
            efficiency: EFFICIENCY_ONE
        }
    );
}

#[test]
fn empty_battery_cannot_discharge() {
    let mut b = battery(0, 1_000_000, 60_000_000, 950_000);
    assert_eq!(b.charge(-500_000, MINUTE), 0);
    assert_eq!(b.stored, 0);
}

#[test]
fn full_battery_discharges_by_the_goal() {
    let mut b = battery(1_000_000, 1_000_000, 60_000_000, 950_000);
    assert_eq!(b.charge(-500_000, MINUTE), -500_000);
    assert_eq!(b.stored, 525_000);
}

#[test]
fn full_battery_cannot_charge() {
    let mut b = battery(1_000_000, 1_000_000, 60_000_000, 950_000);
    assert_eq!(b.charge(500_000, MINUTE), 0);
    assert_eq!(b.stored, 1_000_000);
}

#[test]
fn rate_limits_the_charge() {
    let mut b = battery(5_000_000, 10_000_000, 5_000_000, EFFICIENCY_ONE);
    assert_eq!(b.charge(1_000_000, MINUTE), 83_333);
    assert_eq!(b.stored, 5_083_333);
}

#[test]
fn rate_limits_the_discharge() {
    let mut b = battery(5_000_000, 10_000_000, 5_000_000, EFFICIENCY_ONE);
    assert_eq!(b.charge(-1_000_000, MINUTE), -83_333);
    assert_eq!(b.stored, 4_916_667);
}

#[test]
fn each_direction_has_its_own_rate() {
    let mut b = Battery::new(5_000_000, 10_000_000, 6_000_000, 3_000_000, EFFICIENCY_ONE).unwrap();
    assert_eq!(b.charge(1_000_000, MINUTE), 100_000);
    assert_eq!(b.charge(-1_000_000, MINUTE), -50_000);
    assert_eq!(b.stored, 5_050_000);
}

#[test]
fn a_longer_step_moves_more() {
    let mut b = battery(5_000_000, 10_000_000, 5_000_000, EFFICIENCY_ONE);
    assert_eq!(b.charge(1_000_000, 2 * MINUTE), 166_666);
    assert_eq!(b.stored, 5_166_666);
}

#[test]
fn a_step_of_no_length_moves_nothing() {
    let mut b = battery(5_000_000, 10_000_000, 5_000_000, EFFICIENCY_ONE);
    assert_eq!(b.charge(1_000_000, 0), 0);
    assert_eq!(b.charge(-1_000_000, 0), 0);
    assert_eq!(b.stored, 5_000_000);
}

#[test]
fn capacity_limits_the_charge_before_the_loss() {
    let mut b = battery(900_000, 1_000_000, 60_000_000, 950_000);
    assert_eq!(b.charge(500_000, MINUTE), 105_263);
    assert_eq!(b.stored, 999_999);
}

#[test]
fn stored_energy_limits_the_discharge() {
    let mut b = battery(1_000, 1_000_000, 60_000_000, 950_000);
    assert_eq!(b.charge(-1_000_000, MINUTE), -1_052);
    assert_eq!(b.stored, 0);
}

#[test]
fn a_goal_within_all_limits_is_moved_whole() {
    let mut b = battery(500_000, 1_000_000, 60_000_000, 950_000);
    assert_eq!(b.charge(100_000, MINUTE), 100_000);
    assert_eq!(b.stored, 595_000);
}

#[test]
fn a_loss_is_rounded_against_the_battery() {
    let mut b = battery(500_000, 1_000_000, 60_000_000, 950_000);
    assert_eq!(b.charge(1, MINUTE), 1);
    assert_eq!(b.stored, 500_000);
    assert_eq!(b.charge(-1, MINUTE), -1);
    assert_eq!(b.stored, 499_999);
}

#[test]
fn degenerate_battery_moves_nothing() {
    let mut b = Battery::baseline();
    assert_eq!(b.charge(i64::MAX, u64::MAX), 0);
    assert_eq!(b.charge(i64::MIN, u64::MAX), 0);
    assert_eq!(b, Battery::baseline());
    let mut lossy = Battery::new(0, 0, 5, 5, 0).unwrap();
    assert_eq!(lossy.charge(1_000, MINUTE), 0);
    assert_eq!(lossy.stored, 0);
}

#[test]
fn zero_rates_move_nothing() {
    let mut b = battery(500_000, 1_000_000, 0, 950_000);
    assert_eq!(b.charge(1_000, MINUTE), 0);
    assert_eq!(b.charge(-1_000, MINUTE), 0);
    assert_eq!(b.stored, 500_000);
}

#[test]
fn extreme_goals_and_steps_keep_the_invariant() {
    let mut b = battery(1, ENERGY_MAX, POWER_MAX, 1);
    let up = b.charge(i64::MAX, u64::MAX);
    assert_eq!(up, i64::MAX);
    assert_eq!(b.stored, 1 + 9_223_372_036_854);
    assert!(b.stored <= b.capacity);
    let down = b.charge(i64::MIN, u64::MAX);
    assert_eq!(down, i64::MIN);
    assert_eq!(b.stored, 0);
}

#[test]
fn charge_keeps_the_parameters() {
    let mut b = Battery::new(10, 1_000, 7, 9, 500_000).unwrap();
    b.charge(100, MINUTE);
    assert_eq!(
        (b.capacity, b.max_charging_rate, b.max_discharging_rate, b.efficiency),
        (1_000, 7, 9, 500_000)
    );
}
