use battery_sim::battery::Battery;
use battery_sim::engine::{next_control_point, run_battery_sim};
use battery_sim::reading::{all_well_formed, MeterReading};
use battery_sim::report::Report;
use battery_sim::strategy::{NetZero, Strategy};
use battery_sim::units::{EFFICIENCY_ONE, ENERGY_MAX, ONE_MINUTE};

const SECOND: i64 = 1_000_000;

fn reading(seconds: i64, imported: u64, exported: u64) -> MeterReading {
    MeterReading {
        timestamp: seconds * SECOND,
        import_low: imported,
        import_high: 0,
        export_low: exported,
        export_high: 0,
        voltages: [230_000; 3],
        active_powers_import: [0; 3],
        active_powers_export: [0; 3],
    }
}

fn battery(stored: u64, capacity: u64, rate: u64, efficiency: u32) -> Battery {
    Battery::new(stored, capacity, rate, rate, efficiency).unwrap()
}

fn report(total_import: u128, total_export: u128) -> Report {
    Report { total_import, total_export }
}

struct AlwaysCharge(i64);

impl Strategy for AlwaysCharge {
    fn propose(&self, _previous: &MeterReading, _current: &MeterReading) -> i64 {
        self.0
    }
}

#[test]
fn balance_is_import_less_export() {
    let r = MeterReading {
        timestamp: 0,
        import_low: 1_000,
        import_high: 200,
        export_low: 30,
        export_high: 4,
        voltages: [0; 3],
        active_powers_import: [0; 3],
        active_powers_export: [0; 3],
    };
    assert_eq!(r.balance(), 1_166);
    assert_eq!(reading(0, 5, 12).balance(), -7);
}

#[test]
fn balance_at_the_ends_of_the_range() {
    let mut r = reading(0, ENERGY_MAX, 0);
    r.import_high = ENERGY_MAX;
    assert_eq!(r.balance(), 2_000_000_000_000_000);
    let mut e = reading(0, 0, ENERGY_MAX);
    e.export_high = ENERGY_MAX;
    assert_eq!(e.balance(), -2_000_000_000_000_000);
}

#[test]
fn well_formed_tells_counters_in_range() {
    assert!(reading(0, ENERGY_MAX, ENERGY_MAX).is_well_formed());
    assert!(!reading(0, ENERGY_MAX + 1, 0).is_well_formed());
    assert!(!reading(0, 0, ENERGY_MAX + 1).is_well_formed());
    let mut r = reading(0, 0, 0);
    r.import_high = ENERGY_MAX + 1;
    assert!(!r.is_well_formed());
    r.import_high = 0;
    r.export_high = u64::MAX;
    assert!(!r.is_well_formed());
}

#[test]
fn all_well_formed_looks_at_every_reading() {
    assert!(all_well_formed(&[]));
    assert!(all_well_formed(&[reading(0, 1, 2), reading(1, ENERGY_MAX, ENERGY_MAX)]));
    assert!(!all_well_formed(&[reading(0, 1, 2), reading(1, 3, ENERGY_MAX + 1)]));
    assert!(!all_well_formed(&[reading(0, ENERGY_MAX + 1, 2), reading(1, 3, 4)]));
}

#[test]
fn net_zero_proposes_the_opposite_of_the_exchange() {
    let imported = NetZero.propose(&reading(0, 10_000_000, 0), &reading(60, 10_500_000, 0));
    assert_eq!(imported, -500_000);
    let exported = NetZero.propose(&reading(0, 0, 1_000), &reading(60, 0, 1_750));
    assert_eq!(exported, 750);
    assert_eq!(NetZero.propose(&reading(0, 7, 7), &reading(60, 9, 9)), 0);
}

#[test]
fn net_zero_at_the_ends_of_the_range() {
    let mut high = reading(0, ENERGY_MAX, 0);
    high.import_high = ENERGY_MAX;
    let mut low = reading(0, 0, ENERGY_MAX);
    low.export_high = ENERGY_MAX;
    assert_eq!(NetZero.propose(&low, &high), -4_000_000_000_000_000);
    assert_eq!(NetZero.propose(&high, &low), 4_000_000_000_000_000);
}

#[test]
fn next_control_point_skips_readings_within_the_minute() {
    let data = [
        reading(0, 0, 0),
        reading(20, 0, 0),
        reading(59, 0, 0),
        reading(60, 0, 0),
        reading(61, 0, 0),
        reading(130, 0, 0),
    ];
    assert_eq!(next_control_point(&data, 0), Some(3));
    assert_eq!(next_control_point(&data, 1), Some(5));
    assert_eq!(next_control_point(&data, 3), Some(5));
    assert_eq!(next_control_point(&data, 4), Some(5));
    assert_eq!(next_control_point(&data, 5), None);
}

#[test]
fn next_control_point_is_exact_to_the_microsecond() {
    let mut early = reading(60, 0, 0);
    early.timestamp -= 1;
    let data = [reading(0, 0, 0), early, reading(60, 0, 0)];
    assert_eq!(next_control_point(&data, 0), Some(2));
    assert_eq!(data[2].timestamp - data[0].timestamp, ONE_MINUTE);
}

#[test]
fn next_control_point_at_the_ends_of_time() {
    let mut first = reading(0, 0, 0);
    first.timestamp = i64::MIN;
    let mut last = reading(0, 0, 0);
    last.timestamp = i64::MAX;
    assert_eq!(next_control_point(&[first, last], 0), Some(1));
    assert_eq!(next_control_point(&[last, first], 0), None);
    assert_eq!(next_control_point(&[last, last], 0), None);
}

#[test]
fn empty_series_gives_empty_report() {
    let b = battery(0, 1_000_000, 60_000_000, 950_000);
    assert_eq!(run_battery_sim(b, &NetZero, &[]), report(0, 0));
}

#[test]
fn single_reading_gives_empty_report() {
    let b = battery(0, 1_000_000, 60_000_000, 950_000);
    assert_eq!(run_battery_sim(b, &NetZero, &[reading(0, 5, 0)]), report(0, 0));
}

#[test]
fn readings_within_one_minute_give_empty_report() {
    let b = battery(0, 1_000_000, 60_000_000, 950_000);
    let data = [reading(0, 0, 0), reading(30, 100, 0), reading(59, 200, 0)];
    assert_eq!(run_battery_sim(b, &NetZero, &data), report(0, 0));
}

#[test]
fn empty_battery_leaves_the_import() {
    let b = battery(0, 1_000_000, 60_000_000, 950_000);
    let data = [reading(0, 10_000_000, 0), reading(60, 10_500_000, 0)];
    assert_eq!(run_battery_sim(b, &NetZero, &data), report(500_000, 0));
}

#[test]
fn full_battery_covers_the_import() {
    let b = battery(1_000_000, 1_000_000, 60_000_000, 950_000);
    let data = [reading(0, 10_000_000, 0), reading(60, 10_500_000, 0)];
    assert_eq!(run_battery_sim(b, &NetZero, &data), report(0, 0));
}

#[test]
fn export_is_stored_and_used_later() {
    let b = battery(0, 1_000_000, 60_000_000, EFFICIENCY_ONE);
    let data = [
        reading(0, 0, 0),
        reading(60, 0, 300_000),
        reading(120, 200_000, 300_000),
        reading(180, 500_000, 300_000),
    ];
    assert_eq!(run_battery_sim(b, &NetZero, &data), report(200_000, 0));
}

#[test]
fn loss_on_charging_shows_on_discharge() {
    let b = battery(0, 1_000_000, 60_000_000, 500_000);
    let data = [reading(0, 0, 0), reading(60, 0, 400_000), reading(120, 400_000, 400_000)];
    assert_eq!(run_battery_sim(b, &NetZero, &data), report(0, 0));
    let data = [reading(0, 0, 0), reading(60, 0, 400_000), reading(120, 500_000, 400_000)];
    assert_eq!(run_battery_sim(b, &NetZero, &data), report(100_000, 0));
}

#[test]
fn steps_follow_the_minute_and_not_the_samples() {
    let data = [
        reading(0, 1_000_000, 0),
        reading(20, 1_100_000, 0),
        reading(40, 1_050_000, 0),
        reading(60, 1_200_000, 0),
        reading(80, 1_250_000, 0),
        reading(130, 1_200_000, 50_000),
    ];
    assert_eq!(run_battery_sim(Battery::baseline(), &NetZero, &data), report(200_000, 50_000));
    let b = battery(0, 1_000_000, 60_000_000, EFFICIENCY_ONE);
    assert_eq!(run_battery_sim(b, &NetZero, &data), report(200_000, 0));
}

#[test]
fn a_sampling_gap_widens_the_rate_limit() {
    let b = battery(0, 10_000_000, 5_000_000, EFFICIENCY_ONE);
    let data = [reading(0, 0, 0), reading(120, 0, 1_000_000)];
    assert_eq!(run_battery_sim(b, &NetZero, &data), report(0, 833_334));
    let data = [reading(0, 0, 0), reading(60, 0, 1_000_000)];
    assert_eq!(run_battery_sim(b, &NetZero, &data), report(0, 916_667));
}

#[test]
fn zero_exchange_touches_neither_total() {
    let b = battery(500_000, 1_000_000, 60_000_000, 950_000);
    let data = [reading(0, 100, 100), reading(60, 100, 100), reading(120, 150, 150)];
    assert_eq!(run_battery_sim(b, &NetZero, &data), report(0, 0));
}

#[test]
fn baseline_reproduces_the_raw_exchange() {
    let data = [
        reading(0, 1_000, 0),
        reading(60, 1_700, 100),
        reading(90, 9_999, 0),
        reading(120, 1_700, 900),
        reading(200, 2_000, 900),
        reading(260, 2_000, 1_500),
    ];
    let expected = report(600 + 300, 800 + 600);
    assert_eq!(run_battery_sim(Battery::baseline(), &NetZero, &data), expected);
    assert_eq!(run_battery_sim(Battery::baseline(), &AlwaysCharge(i64::MAX), &data), expected);
    assert_eq!(run_battery_sim(Battery::baseline(), &AlwaysCharge(i64::MIN), &data), expected);
    let lossy = Battery::new(0, 0, 0, 0, 0).unwrap();
    assert_eq!(run_battery_sim(lossy, &NetZero, &data), expected);
}

#[test]
fn another_strategy_runs_without_a_change_to_the_engine() {
    let b = battery(0, 1_000_000, 6_000_000, EFFICIENCY_ONE);
    let data = [reading(0, 0, 0), reading(60, 50_000, 0), reading(120, 50_000, 30_000)];
    assert_eq!(run_battery_sim(b, &AlwaysCharge(250_000), &data), report(150_000 + 70_000, 0));
}

#[test]
fn run_agrees_with_the_steps_taken_one_by_one() {
    let data = [
        reading(0, 0, 0),
        reading(61, 0, 700_000),
        reading(100, 5, 700_000),
        reading(121, 450_000, 700_000),
        reading(400, 450_000, 2_000_000),
        reading(460, 3_000_000, 2_000_000),
        reading(520, 3_000_000, 2_000_001),
    ];
    let start = battery(100_000, 1_000_000, 30_000_000, 900_000);
    let whole = run_battery_sim(start, &NetZero, &data);

    let mut cell = start;
    let mut previous = 0;
    let mut total_import: u128 = 0;
    let mut total_export: u128 = 0;
    let mut sum: i128 = 0;
    let mut steps = 0;
    while let Some(current) = next_control_point(&data, previous) {
        let goal = NetZero.propose(&data[previous], &data[current]);
        let elapsed = (data[current].timestamp - data[previous].timestamp) as u64;
        let clamped = cell.charge(goal, elapsed);
        assert!(cell.stored <= cell.capacity);
        let simulated = (data[current].balance() - data[previous].balance()) as i128
            + clamped as i128;
        let (import_before, export_before) = (total_import, total_export);
        if simulated > 0 {
            total_import += simulated as u128;
        } else {
            total_export += (-simulated) as u128;
        }
        assert!(total_import >= import_before && total_export >= export_before);
        assert!(total_import == import_before || total_export == export_before);
        let upto = run_battery_sim(start, &NetZero, &data[..=current]);
        assert_eq!(upto, report(total_import, total_export));
        sum += simulated;
        previous = current;
        steps += 1;
    }
    assert_eq!(steps, 5);
    assert_eq!(whole, report(total_import, total_export));
    assert_eq!(whole.total_import as i128 - whole.total_export as i128, sum);
    assert_eq!(whole, report(2_050_000, 550_000));
    assert_eq!(cell.stored, 549_999);
}

#[test]
fn readings_out_of_order_still_end_the_run() {
    let b = battery(0, 1_000_000, 60_000_000, EFFICIENCY_ONE);
    let data = [reading(100, 0, 0), reading(0, 50, 0), reading(160, 70, 0), reading(30, 0, 0)];
    assert_eq!(run_battery_sim(b, &NetZero, &data), report(70, 0));
}

#[test]
fn counters_at_the_ends_of_the_range_are_summed_exactly() {
    let mut high = reading(0, ENERGY_MAX, 0);
    high.import_high = ENERGY_MAX;
    let mut low = reading(0, 0, ENERGY_MAX);
    low.export_high = ENERGY_MAX;
    let mut data = Vec::new();
    for k in 0..10 {
        let mut r = if k % 2 == 0 { low } else { high };
        r.timestamp = k * 60 * SECOND;
        data.push(r);
    }
    assert_eq!(
        run_battery_sim(Battery::baseline(), &NetZero, &data),
        report(5 * 4_000_000_000_000_000, 4 * 4_000_000_000_000_000)
    );
}
