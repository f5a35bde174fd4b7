//! What a run of the simulator can report.

use vstd::prelude::*;

verus! {

/// The reasons for which the simulation stops on a runtime fault.
#[derive(Clone, Copy, PartialEq, Eq, Structural, Debug)]
pub enum FaultKind {
    /// A load or store computed an address below zero or past the data region.
    AddressOutOfRange,
    /// A data word was executed as an instruction.
    FatalMisexecution,
}

/// The state of the simulation after a cycle or after one instruction's effect.
/// Everything but `Running` is final.
#[derive(Clone, Copy, PartialEq, Eq, Structural, Debug)]
pub enum Status {
    Running,
    Halted,
    Drained,
    Fault(FaultKind),
}

} // verus!
