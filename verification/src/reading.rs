use vstd::prelude::*;
use crate::units::ENERGY_MAX;

verus! {

/// One sample of the meter: an instant, four cumulative energy counters and
/// the instantaneous per-phase values that are carried along unread.
#[derive(Clone, Copy, Debug, Default, PartialEq, Eq)]
pub struct MeterReading {
    /// Microseconds since the Unix epoch.
    pub timestamp: i64,
    /// Energy imported under the low tariff, in milliwatt-hours.
    pub import_low: u64,
    /// Energy imported under the high tariff, in milliwatt-hours.
    pub import_high: u64,
    /// Energy exported under the low tariff, in milliwatt-hours.
    pub export_low: u64,
    /// Energy exported under the high tariff, in milliwatt-hours.
    pub export_high: u64,
    /// Voltage of each phase, in millivolts.
    pub voltages: [u32; 3],
    /// Power drawn on each phase, in milliwatts.
    pub active_powers_import: [u32; 3],
    /// Power fed in on each phase, in milliwatts.
    pub active_powers_export: [u32; 3],
}

impl MeterReading {
    /// Every counter is within the range that the arithmetic is proved for.
    pub open spec fn wf(&self) -> bool {
        &&& self.import_low <= ENERGY_MAX
        &&& self.import_high <= ENERGY_MAX
        &&& self.export_low <= ENERGY_MAX
        &&& self.export_high <= ENERGY_MAX
    }

    /// Net energy imported since the counters' epoch: positive for import,
    /// negative for export.
    pub open spec fn spec_balance(&self) -> int {
        self.import_low + self.import_high - self.export_low - self.export_high
    }

    /// Tells whether the counters are in range.
    pub fn is_well_formed(&self) -> (ok: bool)
        ensures
            ok == self.wf(),
    {
        self.import_low <= ENERGY_MAX && self.import_high <= ENERGY_MAX
            && self.export_low <= ENERGY_MAX && self.export_high <= ENERGY_MAX
    }

    /// Net imported energy in milliwatt-hours.
    pub fn balance(&self) -> (b: i64)
        requires
            self.wf(),
        ensures
            b == self.spec_balance(),
    {
        let imported: u64 = self.import_low + self.import_high;
        let exported: u64 = self.export_low + self.export_high;
        if imported >= exported {
            (imported - exported) as i64
        } else {
            -((exported - imported) as i64)
        }
    }
}

/// Tells whether the counters of every reading are in range.
pub fn all_well_formed(data: &[MeterReading]) -> (ok: bool)
    ensures
        ok == forall|i: int| 0 <= i < data@.len() ==> (#[trigger] data@[i]).wf(),
{
    let mut i: usize = 0;
    while i < data.len()
        invariant
            i <= data@.len(),
            forall|k: int| 0 <= k < i ==> (#[trigger] data@[k]).wf(),
        decreases data@.len() - i,
    {
        if !data[i].is_well_formed() {
            return false;
        }
        i = i + 1;
    }
    true
}

} // verus!
