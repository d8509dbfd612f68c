use vstd::prelude::*;
use crate::reading::MeterReading;

verus! {

/// A control policy: from the two readings that bracket a control step it
/// proposes how much the battery should move, in milliwatt-hours. A positive
/// amount asks to charge, a negative one to discharge. A policy sees nothing
/// but these two readings.
pub trait Strategy {
    /// The amount that the policy proposes. A policy that does not say
    /// otherwise proposes to move nothing.
    open spec fn spec_propose(&self, previous: &MeterReading, current: &MeterReading) -> int {
        0
    }

    /// Computes the proposal for one control step.
    fn propose(&self, previous: &MeterReading, current: &MeterReading) -> (goal: i64)
        requires
            previous.wf(),
            current.wf(),
        ensures
            goal == self.spec_propose(previous, current),
    ;
}

/// The policy that asks the battery to take up whatever the grid exchanged:
/// to discharge by what was imported and to charge by what was exported, so
/// that an unconstrained battery would bring the exchange of the step to zero.
#[derive(Clone, Copy, Debug, PartialEq, Eq)]
pub struct NetZero;

impl Strategy for NetZero {
    open spec fn spec_propose(&self, previous: &MeterReading, current: &MeterReading) -> int {
        -(current.spec_balance() - previous.spec_balance())
    }

    fn propose(&self, previous: &MeterReading, current: &MeterReading) -> (goal: i64) {
        let change: i64 = current.balance() - previous.balance();
        -change
    }
}

} // verus!
