use vstd::prelude::*;
use crate::battery::{stored_change, Battery};
use crate::reading::MeterReading;
use crate::report::Report;
use crate::strategy::Strategy;
use crate::units::ONE_MINUTE;

verus! {

/// The first index from `from` on whose reading lies at least one minute
/// after the reading at `previous`, or the length of the series where there
/// is none.
pub open spec fn first_reaching(data: Seq<MeterReading>, previous: int, from: int) -> int
    decreases data.len() - from,
{
    if from >= data.len() {
        data.len() as int
    } else if data[from].timestamp - data[previous].timestamp >= ONE_MINUTE {
        from
    } else {
        first_reaching(data, previous, from + 1)
    }
}

/// The reading at which the control step that starts at `previous` ends: the
/// first later one that is at least a minute younger. Readings in between
/// take no part in any step.
pub open spec fn spec_next_control_point(data: Seq<MeterReading>, previous: int) -> int {
    first_reaching(data, previous, previous + 1)
}

/// One control step of a run, with the state that it left behind.
pub struct ControlStep {
    /// Index of the reading that the step started from.
    pub previous: int,
    /// Index of the reading that the step ended at.
    pub current: int,
    /// What the strategy proposed.
    pub goal: int,
    /// What the battery moved.
    pub clamped: int,
    /// The stored energy after the step.
    pub stored: int,
    /// What the grid really exchanged during the step.
    pub real_delta: int,
    /// What it would have exchanged with the battery in place.
    pub simulated_delta: int,
    /// The import total after the step.
    pub total_import: int,
    /// The export total after the step.
    pub total_export: int,
}

/// The control step from the reading at `previous` to the reading at
/// `current`, taken with `stored` in the battery and the given totals so far.
pub open spec fn control_step<S: Strategy>(
    battery: Battery,
    strategy: S,
    data: Seq<MeterReading>,
    previous: int,
    current: int,
    stored: int,
    total_import: int,
    total_export: int,
) -> ControlStep {
    let elapsed = data[current].timestamp - data[previous].timestamp;
    let goal = strategy.spec_propose(&data[previous], &data[current]);
    let clamped = battery.clamped_charge(stored, goal, elapsed);
    let real_delta = data[current].spec_balance() - data[previous].spec_balance();
    let simulated_delta = real_delta + clamped;
    ControlStep {
        previous,
        current,
        goal,
        clamped,
        stored: stored + stored_change(clamped, battery.efficiency as int),
        real_delta,
        simulated_delta,
        total_import: if simulated_delta > 0 {
            total_import + simulated_delta
        } else {
            total_import
        },
        total_export: if simulated_delta > 0 {
            total_export
        } else {
            total_export - simulated_delta
        },
    }
}

/// The control steps of a run that stands at the reading at `previous` with
/// `stored` in the battery and the given totals so far.
pub open spec fn trace_from<S: Strategy>(
    battery: Battery,
    strategy: S,
    data: Seq<MeterReading>,
    previous: int,
    stored: int,
    total_import: int,
    total_export: int,
) -> Seq<ControlStep>
    decreases data.len() - previous,
{
    let current = spec_next_control_point(data, previous);
    if current <= previous || current >= data.len() {
        Seq::empty()
    } else {
        let step = control_step(
            battery,
            strategy,
            data,
            previous,
            current,
            stored,
            total_import,
            total_export,
        );
        seq![step] + trace_from(
            battery,
            strategy,
            data,
            current,
            step.stored,
            step.total_import,
            step.total_export,
        )
    }
}

/// The control steps of a whole run: it starts at the first reading with the
/// battery as given and with empty totals. An empty series has no step.
pub open spec fn simulate<S: Strategy>(
    battery: Battery,
    strategy: S,
    data: Seq<MeterReading>,
) -> Seq<ControlStep> {
    trace_from(battery, strategy, data, 0, battery.stored as int, 0, 0)
}

/// The import total that a run ends with.
pub open spec fn total_import_of(trace: Seq<ControlStep>) -> int {
    if trace.len() == 0 {
        0
    } else {
        trace.last().total_import
    }
}

/// The export total that a run ends with.
pub open spec fn total_export_of(trace: Seq<ControlStep>) -> int {
    if trace.len() == 0 {
        0
    } else {
        trace.last().total_export
    }
}

/// From `from` on, `first_reaching` finds the least index whose reading is a
/// minute younger than the one at `previous`.
pub proof fn lemma_first_reaching(data: Seq<MeterReading>, previous: int, from: int)
    requires
        0 <= from,
    ensures
        from <= data.len() ==> from <= first_reaching(data, previous, from) <= data.len(),
        first_reaching(data, previous, from) < data.len() ==> data[first_reaching(
            data,
            previous,
            from,
        )].timestamp - data[previous].timestamp >= ONE_MINUTE,
        forall|k: int|
            from <= k < first_reaching(data, previous, from) && k < data.len() ==> (
            #[trigger] data[k]).timestamp - data[previous].timestamp < ONE_MINUTE,
    decreases data.len() - from,
{
    if from < data.len() && data[from].timestamp - data[previous].timestamp < ONE_MINUTE {
        lemma_first_reaching(data, previous, from + 1);
    }
}

/// Finds the reading at which the control step that starts at `previous`
/// ends, or `None` where the series holds no reading that late.
pub fn next_control_point(data: &[MeterReading], previous: usize) -> (next: Option<usize>)
    requires
        previous < data@.len(),
    ensures
        match next {
            Some(j) => {
                &&& j == spec_next_control_point(data@, previous as int)
                &&& previous < j < data@.len()
                &&& data@[j as int].timestamp - data@[previous as int].timestamp >= ONE_MINUTE
                &&& forall|k: int|
                    previous < k < j ==> (#[trigger] data@[k]).timestamp
                        - data@[previous as int].timestamp < ONE_MINUTE
            },
            None => {
                &&& spec_next_control_point(data@, previous as int) == data@.len()
                &&& forall|k: int|
                    previous < k < data@.len() ==> (#[trigger] data@[k]).timestamp
                        - data@[previous as int].timestamp < ONE_MINUTE
            },
        },
{
    let start: i128 = data[previous].timestamp as i128;
    let mut j: usize = previous + 1;
    while j < data.len()
        invariant
            previous < j <= data@.len(),
            start == data@[previous as int].timestamp,
            first_reaching(data@, previous as int, previous + 1) == first_reaching(
                data@,
                previous as int,
                j as int,
            ),
            forall|k: int|
                previous < k < j ==> (#[trigger] data@[k]).timestamp - data@[previous as int].timestamp
                    < ONE_MINUTE,
        decreases data@.len() - j,
    {
        if data[j].timestamp as i128 - start >= ONE_MINUTE as i128 {
            return Some(j);
        }
        j = j + 1;
    }
    None
}

/// The import total at the end of `trace`, which began with `so_far`.
spec fn import_at_end(trace: Seq<ControlStep>, so_far: int) -> int {
    if trace.len() == 0 {
        so_far
    } else {
        trace.last().total_import
    }
}

/// The export total at the end of `trace`, which began with `so_far`.
spec fn export_at_end(trace: Seq<ControlStep>, so_far: int) -> int {
    if trace.len() == 0 {
        so_far
    } else {
        trace.last().total_export
    }
}

/// A trace ends where the trace after its first step ends.
proof fn lemma_end_after_first_step(step: ControlStep, rest: Seq<ControlStep>)
    ensures
        import_at_end(seq![step] + rest, 0) == import_at_end(rest, step.total_import),
        export_at_end(seq![step] + rest, 0) == export_at_end(rest, step.total_export),
{
    let whole = seq![step] + rest;
    assert(whole.len() == rest.len() + 1);
    if rest.len() == 0 {
        assert(whole.last() == step);
    } else {
        assert(whole.last() == rest.last());
    }
}

/// Replays the battery through the series under the strategy and returns
/// what the grid would have exchanged. The run starts at the first reading;
/// each control step ends at the first later reading that is at least a
/// minute younger, and the run ends where there is none. An empty series
/// gives empty totals.
pub fn run_battery_sim<S: Strategy>(battery: Battery, strategy: &S, data: &[MeterReading]) -> (report:
    Report)
    requires
        battery.wf(),
        forall|i: int| 0 <= i < data@.len() ==> (#[trigger] data@[i]).wf(),
    ensures
        report.total_import == total_import_of(simulate(battery, *strategy, data@)),
        report.total_export == total_export_of(simulate(battery, *strategy, data@)),
{
    let mut report = Report { total_import: 0, total_export: 0 };
    if data.len() == 0 {
        return report;
    }
    let mut cell = battery;
    let mut previous: usize = 0;
    loop
        invariant
            previous < data@.len(),
            forall|i: int| 0 <= i < data@.len() ==> (#[trigger] data@[i]).wf(),
            cell.wf(),
            cell.capacity == battery.capacity,
            cell.max_charging_rate == battery.max_charging_rate,
            cell.max_discharging_rate == battery.max_discharging_rate,
            cell.efficiency == battery.efficiency,
            report.total_import + report.total_export <= previous * 0x1_0000_0000_0000_0000,
            import_at_end(simulate(battery, *strategy, data@), 0) == import_at_end(
                trace_from(
                    battery,
                    *strategy,
                    data@,
                    previous as int,
                    cell.stored as int,
                    report.total_import as int,
                    report.total_export as int,
                ),
                report.total_import as int,
            ),
            export_at_end(simulate(battery, *strategy, data@), 0) == export_at_end(
                trace_from(
                    battery,
                    *strategy,
                    data@,
                    previous as int,
                    cell.stored as int,
                    report.total_import as int,
                    report.total_export as int,
                ),
                report.total_export as int,
            ),
        decreases data@.len() - previous,
    {
        let found = next_control_point(data, previous);
        match found {
            None => {
                return report;
            },
            Some(current) => {
                let ghost before = trace_from(
                    battery,
                    *strategy,
                    data@,
                    previous as int,
                    cell.stored as int,
                    report.total_import as int,
                    report.total_export as int,
                );
                let ghost step = control_step(
                    battery,
                    *strategy,
                    data@,
                    previous as int,
                    current as int,
                    cell.stored as int,
                    report.total_import as int,
                    report.total_export as int,
                );
                let goal = strategy.propose(&data[previous], &data[current]);
                let elapsed: u64 = (data[current].timestamp as i128
                    - data[previous].timestamp as i128) as u64;
                let clamped = cell.charge(goal, elapsed);
                let measured: i64 = data[current].balance() - data[previous].balance();
                let simulated: i128 = measured as i128 + clamped as i128;
                if simulated > 0 {
                    report.total_import = report.total_import + simulated as u128;
                } else {
                    report.total_export = report.total_export + (-simulated) as u128;
                }
                proof {
                    let rest = trace_from(
                        battery,
                        *strategy,
                        data@,
                        current as int,
                        step.stored,
                        step.total_import,
                        step.total_export,
                    );
                    assert(before == seq![step] + rest);
                    assert(before.len() > 0);
                    lemma_end_after_first_step(step, rest);
                }
                previous = current;
            },
        }
    }
}

} // verus!
