use vstd::prelude::*;
use crate::battery::{
    charge_ceiling, clamp, discharge_floor, lemma_charge_keeps_invariant, rate_limit,
    stored_change, Battery,
};
use crate::engine::{
    control_step, simulate, spec_next_control_point, total_export_of, total_import_of,
    trace_from, ControlStep,
};
use crate::reading::MeterReading;
use crate::strategy::Strategy;

verus! {

/// The import total before step `i` of a trace that began with `start`.
pub open spec fn import_before(trace: Seq<ControlStep>, i: int, start: int) -> int {
    if i <= 0 {
        start
    } else {
        trace[i - 1].total_import
    }
}

/// The export total before step `i` of a trace that began with `start`.
pub open spec fn export_before(trace: Seq<ControlStep>, i: int, start: int) -> int {
    if i <= 0 {
        start
    } else {
        trace[i - 1].total_export
    }
}

/// The sum of the simulated exchanges of all steps of a trace.
pub open spec fn sum_simulated(trace: Seq<ControlStep>) -> int
    decreases trace.len(),
{
    if trace.len() == 0 {
        0
    } else {
        trace[0].simulated_delta + sum_simulated(trace.subrange(1, trace.len() as int))
    }
}

/// What holds of every step of a trace, whatever state it began with.
proof fn lemma_trace<S: Strategy>(
    battery: Battery,
    strategy: S,
    data: Seq<MeterReading>,
    previous: int,
    stored: int,
    total_import: int,
    total_export: int,
)
    requires
        0 <= stored <= battery.capacity,
    ensures
        ({
            let t = trace_from(battery, strategy, data, previous, stored, total_import, total_export);
            &&& forall|i: int|
                0 <= i < t.len() ==> 0 <= (#[trigger] t[i]).stored <= battery.capacity
            &&& forall|i: int|
                0 <= i < t.len() ==> (#[trigger] t[i]).simulated_delta == t[i].real_delta
                    + t[i].clamped
            &&& forall|i: int|
                0 <= i < t.len() ==> (#[trigger] t[i]).real_delta
                    == data[t[i].current].spec_balance() - data[t[i].previous].spec_balance()
            &&& forall|i: int|
                0 <= i < t.len() ==> {
                    let import_step = (#[trigger] t[i]).total_import - import_before(
                        t,
                        i,
                        total_import,
                    );
                    let export_step = t[i].total_export - export_before(t, i, total_export);
                    &&& import_step >= 0
                    &&& export_step >= 0
                    &&& import_step == 0 || export_step == 0
                    &&& import_step - export_step == t[i].simulated_delta
                }
            &&& import_before(t, t.len() as int, total_import) - export_before(
                t,
                t.len() as int,
                total_export,
            ) == total_import - total_export + sum_simulated(t)
        }),
    decreases data.len() - previous,
{
    let t = trace_from(battery, strategy, data, previous, stored, total_import, total_export);
    let current = spec_next_control_point(data, previous);
    if current <= previous || current >= data.len() {
        assert(t.len() == 0);
    } else {
        let step = control_step(
            battery,
            strategy,
            data,
            previous,
            current,
            stored,
            total_import,
            total_export,
        );
        let rest = trace_from(
            battery,
            strategy,
            data,
            current,
            step.stored,
            step.total_import,
            step.total_export,
        );
        assert(t == seq![step] + rest);
        lemma_charge_keeps_invariant(
            battery,
            stored,
            step.goal,
            data[current].timestamp - data[previous].timestamp,
        );
        lemma_trace(
            battery,
            strategy,
            data,
            current,
            step.stored,
            step.total_import,
            step.total_export,
        );
        assert(t[0] == step);
        assert(forall|i: int| 1 <= i < t.len() ==> t[i] == rest[i - 1]);
        assert(t.subrange(1, t.len() as int) =~= rest);
        assert forall|i: int| 0 <= i < t.len() implies {
            let import_step = (#[trigger] t[i]).total_import - import_before(t, i, total_import);
            let export_step = t[i].total_export - export_before(t, i, total_export);
            &&& import_step >= 0
            &&& export_step >= 0
            &&& import_step == 0 || export_step == 0
            &&& import_step - export_step == t[i].simulated_delta
        } by {
            if i >= 1 {
                assert(t[i] == rest[i - 1]);
                assert(import_before(t, i, total_import) == import_before(
                    rest,
                    i - 1,
                    step.total_import,
                ));
                assert(export_before(t, i, total_export) == export_before(
                    rest,
                    i - 1,
                    step.total_export,
                ));
            }
        }
        assert(import_before(t, t.len() as int, total_import) == import_before(
            rest,
            rest.len() as int,
            step.total_import,
        ));
        assert(export_before(t, t.len() as int, total_export) == export_before(
            rest,
            rest.len() as int,
            step.total_export,
        ));
    }
}

/// After every control step of a run the stored energy lies between zero
/// and the capacity.
pub proof fn lemma_stored_within_capacity<S: Strategy>(
    battery: Battery,
    strategy: S,
    data: Seq<MeterReading>,
)
    requires
        battery.wf(),
    ensures
        forall|i: int|
            0 <= i < simulate(battery, strategy, data).len() ==> 0 <= (#[trigger] simulate(
                battery,
                strategy,
                data,
            )[i]).stored <= battery.capacity,
{
    lemma_trace(battery, strategy, data, 0, battery.stored as int, 0, 0);
}

/// In every control step the simulated exchange is the real exchange plus
/// what the battery moved, and at the end of a run the import total less the
/// export total is the sum of the simulated exchanges of all its steps.
pub proof fn lemma_conservation<S: Strategy>(battery: Battery, strategy: S, data: Seq<MeterReading>)
    requires
        battery.wf(),
    ensures
        forall|i: int|
            #![trigger simulate(battery, strategy, data)[i]]
            0 <= i < simulate(battery, strategy, data).len() ==> {
                let step = simulate(battery, strategy, data)[i];
                &&& step.simulated_delta == step.real_delta + step.clamped
                &&& step.real_delta == data[step.current].spec_balance()
                    - data[step.previous].spec_balance()
            },
        total_import_of(simulate(battery, strategy, data)) - total_export_of(
            simulate(battery, strategy, data),
        ) == sum_simulated(simulate(battery, strategy, data)),
{
    lemma_trace(battery, strategy, data, 0, battery.stored as int, 0, 0);
}

/// Neither total ever decreases during a run: every control step adds an
/// amount that is not negative to exactly one of them, a simulated exchange
/// above zero to the import total and any other, negated, to the export total.
pub proof fn lemma_totals_never_decrease<S: Strategy>(
    battery: Battery,
    strategy: S,
    data: Seq<MeterReading>,
)
    requires
        battery.wf(),
    ensures
        forall|i: int|
            #![trigger simulate(battery, strategy, data)[i]]
            0 <= i < simulate(battery, strategy, data).len() ==> {
                let t = simulate(battery, strategy, data);
                let import_step = t[i].total_import - import_before(t, i, 0);
                let export_step = t[i].total_export - export_before(t, i, 0);
                &&& import_step >= 0
                &&& export_step >= 0
                &&& import_step == 0 || export_step == 0
                &&& t[i].simulated_delta > 0 ==> import_step == t[i].simulated_delta
                &&& t[i].simulated_delta <= 0 ==> export_step == -t[i].simulated_delta
            },
        0 <= total_import_of(simulate(battery, strategy, data)),
        0 <= total_export_of(simulate(battery, strategy, data)),
{
    lemma_trace(battery, strategy, data, 0, battery.stored as int, 0, 0);
    let t = simulate(battery, strategy, data);
    lemma_totals_not_negative(t, t.len() as int);
}

/// Totals that never decrease from zero are never negative.
proof fn lemma_totals_not_negative(t: Seq<ControlStep>, n: int)
    requires
        0 <= n <= t.len(),
        forall|i: int|
            0 <= i < t.len() ==> (#[trigger] t[i]).total_import >= import_before(t, i, 0)
                && t[i].total_export >= export_before(t, i, 0),
    ensures
        0 <= import_before(t, n, 0),
        0 <= export_before(t, n, 0),
    decreases n,
{
    if n > 0 {
        lemma_totals_not_negative(t, n - 1);
        assert(t[n - 1].total_import >= import_before(t, n - 1, 0));
    }
}

/// What the grid really imported and exported, control step by control
/// step, from the reading at `previous` on: a rise of the balance counts as
/// import, any other change as export. No battery enters into it.
pub open spec fn raw_exchange_from(
    data: Seq<MeterReading>,
    previous: int,
    total_import: int,
    total_export: int,
) -> (int, int)
    decreases data.len() - previous,
{
    let current = spec_next_control_point(data, previous);
    if current <= previous || current >= data.len() {
        (total_import, total_export)
    } else {
        let delta = data[current].spec_balance() - data[previous].spec_balance();
        if delta > 0 {
            raw_exchange_from(data, current, total_import + delta, total_export)
        } else {
            raw_exchange_from(data, current, total_import, total_export - delta)
        }
    }
}

/// What the grid really imported and exported over the whole series, at the
/// granularity of one minute.
pub open spec fn raw_exchange(data: Seq<MeterReading>) -> (int, int) {
    raw_exchange_from(data, 0, 0, 0)
}

/// A battery without capacity and without rates moves nothing.
proof fn lemma_degenerate_moves_nothing(battery: Battery, goal: int, elapsed: int)
    requires
        battery.capacity == 0,
        battery.max_charging_rate == 0,
        battery.max_discharging_rate == 0,
    ensures
        battery.clamped_charge(0, goal, elapsed) == 0,
        stored_change(0, battery.efficiency as int) == 0,
{
    let eff = battery.efficiency as int;
    assert(rate_limit(0, elapsed) == 0) by (nonlinear_arith)
        requires
            rate_limit(0, elapsed) == 0int * elapsed / 3_600_000_000,
    ;
    assert(clamp(goal, 0, 0) == 0);
    if eff > 0 {
        assert(0int * 1_000_000 / eff == 0) by (nonlinear_arith)
            requires
                eff > 0,
        ;
    }
    assert(discharge_floor(0, eff) == 0);
    assert(charge_ceiling(0, 0, eff) == 0);
    assert(0int * eff / 1_000_000 == 0) by (nonlinear_arith);
}

/// The trace of a degenerate battery, from any reading and any totals on.
proof fn lemma_degenerate_trace<S: Strategy>(
    battery: Battery,
    strategy: S,
    data: Seq<MeterReading>,
    previous: int,
    total_import: int,
    total_export: int,
)
    requires
        battery.capacity == 0,
        battery.max_charging_rate == 0,
        battery.max_discharging_rate == 0,
    ensures
        ({
            let t = trace_from(battery, strategy, data, previous, 0, total_import, total_export);
            &&& forall|i: int|
                0 <= i < t.len() ==> (#[trigger] t[i]).clamped == 0 && t[i].stored == 0
                    && t[i].simulated_delta == t[i].real_delta
            &&& import_before(t, t.len() as int, total_import) == raw_exchange_from(
                data,
                previous,
                total_import,
                total_export,
            ).0
            &&& export_before(t, t.len() as int, total_export) == raw_exchange_from(
                data,
                previous,
                total_import,
                total_export,
            ).1
        }),
    decreases data.len() - previous,
{
    let t = trace_from(battery, strategy, data, previous, 0, total_import, total_export);
    let current = spec_next_control_point(data, previous);
    if current <= previous || current >= data.len() {
        assert(t.len() == 0);
    } else {
        let step = control_step(
            battery,
            strategy,
            data,
            previous,
            current,
            0,
            total_import,
            total_export,
        );
        lemma_degenerate_moves_nothing(
            battery,
            step.goal,
            data[current].timestamp - data[previous].timestamp,
        );
        assert(step.clamped == 0 && step.stored == 0);
        let rest = trace_from(
            battery,
            strategy,
            data,
            current,
            0,
            step.total_import,
            step.total_export,
        );
        assert(t == seq![step] + rest);
        lemma_degenerate_trace(
            battery,
            strategy,
            data,
            current,
            step.total_import,
            step.total_export,
        );
        assert(t[0] == step);
        assert(forall|i: int| 1 <= i < t.len() ==> t[i] == rest[i - 1]);
        assert(import_before(t, t.len() as int, total_import) == import_before(
            rest,
            rest.len() as int,
            step.total_import,
        ));
        assert(export_before(t, t.len() as int, total_export) == export_before(
            rest,
            rest.len() as int,
            step.total_export,
        ));
    }
}

/// A run with a battery that has no capacity and no rates, under any
/// strategy, moves nothing in any step, and its totals are exactly what the
/// grid really imported and exported at the granularity of one minute.
pub proof fn lemma_baseline_identity<S: Strategy>(
    battery: Battery,
    strategy: S,
    data: Seq<MeterReading>,
)
    requires
        battery.wf(),
        battery.capacity == 0,
        battery.max_charging_rate == 0,
        battery.max_discharging_rate == 0,
    ensures
        forall|i: int|
            #![trigger simulate(battery, strategy, data)[i]]
            0 <= i < simulate(battery, strategy, data).len() ==> {
                let step = simulate(battery, strategy, data)[i];
                &&& step.clamped == 0
                &&& step.stored == 0
                &&& step.simulated_delta == data[step.current].spec_balance()
                    - data[step.previous].spec_balance()
            },
        total_import_of(simulate(battery, strategy, data)) == raw_exchange(data).0,
        total_export_of(simulate(battery, strategy, data)) == raw_exchange(data).1,
{
    lemma_degenerate_trace(battery, strategy, data, 0, 0, 0);
    lemma_trace(battery, strategy, data, 0, 0, 0, 0);
}

} // verus!
