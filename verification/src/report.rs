use vstd::prelude::*;

verus! {

/// What a run exchanged with the grid, in milliwatt-hours. Both totals only
/// ever grow during a run. They are held in 128 bits, which no series that
/// fits into memory can overflow.
#[derive(Clone, Copy, Debug, PartialEq, Eq)]
pub struct Report {
    /// Energy taken from the grid.
    pub total_import: u128,
    /// Energy fed into the grid.
    pub total_export: u128,
}

/// The price of one kilowatt-hour in each direction, in any unit of money.
/// The export price is negative where feeding in earns money.
#[derive(Clone, Copy, Debug, PartialEq, Eq)]
pub struct Tariffs {
    /// What a kilowatt-hour taken from the grid costs.
    pub import: i32,
    /// What a kilowatt-hour fed into the grid costs.
    pub export: i32,
}

/// How a report differs from a baseline: plain differences.
#[derive(Clone, Copy, Debug, PartialEq, Eq)]
pub struct ReportDiff {
    /// Import total less the baseline's, in milliwatt-hours.
    pub import_delta: i128,
    /// Export total less the baseline's, in milliwatt-hours.
    pub export_delta: i128,
    /// Cost less the baseline's, in millionths of the tariffs' unit.
    pub cost_delta: i128,
}

/// `x` as an `i128`, where it is one.
pub open spec fn fit_i128(x: int) -> Option<i128> {
    if i128::MIN <= x <= i128::MAX {
        Some(x as i128)
    } else {
        None
    }
}

/// The cost of a report under the tariffs, in millionths of their unit:
/// each total times its price.
pub open spec fn spec_cost(report: Report, tariffs: Tariffs) -> int {
    report.total_import * tariffs.import + report.total_export * tariffs.export
}

/// `high * 2^64 + low` where that is an `i128`.
fn join(high: i128, low: i128) -> (joined: Option<i128>)
    requires
        -0x10_0000_0000_0000_0000_0000_0000 <= high <= 0x10_0000_0000_0000_0000_0000_0000,
        -0x10_0000_0000_0000_0000_0000_0000 <= low <= 0x10_0000_0000_0000_0000_0000_0000,
    ensures
        joined == fit_i128(high * 0x1_0000_0000_0000_0000 + low),
{
    let word: u128 = 0x1_0000_0000_0000_0000;
    let lifted: u128 = (low + 0x10_0000_0000_0000_0000_0000_0000) as u128;
    let carry: i128 = (lifted / word) as i128;
    let rest: i128 = (lifted % word) as i128;
    let top: i128 = high + carry - 0x10_0000_0000;
    assert(high * 0x1_0000_0000_0000_0000 + low == top * 0x1_0000_0000_0000_0000 + rest);
    if top < -0x8000_0000_0000_0000 || top > 0x7fff_ffff_ffff_ffff {
        None
    } else {
        Some(top * 0x1_0000_0000_0000_0000 + rest)
    }
}

/// The upper and the lower 64 bits of a total.
fn halves(total: u128) -> (parts: (i128, i128))
    ensures
        total == parts.0 * 0x1_0000_0000_0000_0000 + parts.1,
        0 <= parts.0 < 0x1_0000_0000_0000_0000,
        0 <= parts.1 < 0x1_0000_0000_0000_0000,
{
    let word: u128 = 0x1_0000_0000_0000_0000;
    ((total / word) as i128, (total % word) as i128)
}

/// `amount * price + other_amount * other_price`, each amount and each price
/// within the bounds that keep the sum far inside an `i128`.
fn weigh(amount: i128, price: i32, other_amount: i128, other_price: i32) -> (sum: i128)
    requires
        -0x1_0000_0000_0000_0000 <= amount <= 0x1_0000_0000_0000_0000,
        -0x1_0000_0000_0000_0000 <= other_amount <= 0x1_0000_0000_0000_0000,
    ensures
        sum == amount * price + other_amount * other_price,
        -0x1_0000_0000_0000_0000_0000_0000 <= sum <= 0x1_0000_0000_0000_0000_0000_0000,
{
    proof {
        lemma_product_bound(amount as int, price as int);
        lemma_product_bound(other_amount as int, other_price as int);
    }
    amount * (price as i128) + other_amount * (other_price as i128)
}

/// A product of a 65-bit amount and a 32-bit price has at most 96 bits.
proof fn lemma_product_bound(amount: int, price: int)
    requires
        -0x1_0000_0000_0000_0000 <= amount <= 0x1_0000_0000_0000_0000,
        -0x8000_0000 <= price <= 0x8000_0000,
    ensures
        -0x8000_0000_0000_0000_0000_0000 <= amount * price <= 0x8000_0000_0000_0000_0000_0000,
{
    assert(-0x8000_0000_0000_0000_0000_0000 <= amount * price <= 0x8000_0000_0000_0000_0000_0000)
        by (nonlinear_arith)
        requires
            -0x1_0000_0000_0000_0000 <= amount <= 0x1_0000_0000_0000_0000,
            -0x8000_0000 <= price <= 0x8000_0000,
    ;
}

impl Report {
    /// The cost of the report under the tariffs, in millionths of their
    /// unit, or `None` where it is no `i128`.
    pub fn cost(&self, tariffs: &Tariffs) -> (cost: Option<i128>)
        ensures
            cost == fit_i128(spec_cost(*self, *tariffs)),
    {
        let (import_high, import_low) = halves(self.total_import);
        let (export_high, export_low) = halves(self.total_export);
        let high = weigh(import_high, tariffs.import, export_high, tariffs.export);
        let low = weigh(import_low, tariffs.import, export_low, tariffs.export);
        assert(spec_cost(*self, *tariffs) == high * 0x1_0000_0000_0000_0000 + low)
            by (nonlinear_arith)
            requires
                self.total_import == import_high * 0x1_0000_0000_0000_0000 + import_low,
                self.total_export == export_high * 0x1_0000_0000_0000_0000 + export_low,
                high == import_high * tariffs.import + export_high * tariffs.export,
                low == import_low * tariffs.import + export_low * tariffs.export,
                spec_cost(*self, *tariffs) == self.total_import * tariffs.import
                    + self.total_export * tariffs.export,
        ;
        join(high, low)
    }

    /// The differences of the two totals and of the cost between this report
    /// and a baseline, or `None` where one of them is no `i128`.
    pub fn compare(&self, baseline: &Report, tariffs: &Tariffs) -> (diff: Option<ReportDiff>)
        ensures
            diff == match (
                fit_i128(self.total_import - baseline.total_import),
                fit_i128(self.total_export - baseline.total_export),
                fit_i128(spec_cost(*self, *tariffs) - spec_cost(*baseline, *tariffs)),
            ) {
                (Some(import_delta), Some(export_delta), Some(cost_delta)) => Some(
                    (ReportDiff { import_delta, export_delta, cost_delta }),
                ),
                _ => None,
            },
    {
        let (import_high, import_low) = halves(self.total_import);
        let (export_high, export_low) = halves(self.total_export);
        let (base_import_high, base_import_low) = halves(baseline.total_import);
        let (base_export_high, base_export_low) = halves(baseline.total_export);
        let import_delta = join(import_high - base_import_high, import_low - base_import_low);
        let export_delta = join(export_high - base_export_high, export_low - base_export_low);
        let high = weigh(
            import_high - base_import_high,
            tariffs.import,
            export_high - base_export_high,
            tariffs.export,
        );
        let low = weigh(
            import_low - base_import_low,
            tariffs.import,
            export_low - base_export_low,
            tariffs.export,
        );
        assert(spec_cost(*self, *tariffs) - spec_cost(*baseline, *tariffs) == high
            * 0x1_0000_0000_0000_0000 + low) by (nonlinear_arith)
            requires
                self.total_import == import_high * 0x1_0000_0000_0000_0000 + import_low,
                self.total_export == export_high * 0x1_0000_0000_0000_0000 + export_low,
                baseline.total_import == base_import_high * 0x1_0000_0000_0000_0000
                    + base_import_low,
                baseline.total_export == base_export_high * 0x1_0000_0000_0000_0000
                    + base_export_low,
                high == (import_high - base_import_high) * tariffs.import + (export_high
                    - base_export_high) * tariffs.export,
                low == (import_low - base_import_low) * tariffs.import + (export_low
                    - base_export_low) * tariffs.export,
                spec_cost(*self, *tariffs) == self.total_import * tariffs.import
                    + self.total_export * tariffs.export,
                spec_cost(*baseline, *tariffs) == baseline.total_import * tariffs.import
                    + baseline.total_export * tariffs.export,
        ;
        let cost_delta = join(high, low);
        match (import_delta, export_delta, cost_delta) {
            (Some(import_delta), Some(export_delta), Some(cost_delta)) => Some(
                ReportDiff { import_delta, export_delta, cost_delta },
            ),
            _ => None,
        }
    }
}

} // verus!
