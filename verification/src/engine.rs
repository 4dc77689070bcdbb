//! Engine blueprint identifiers and thermodynamic cycles.

use vstd::prelude::*;

verus! {

/// Engine thermodynamic cycle type.
#[derive(Debug, Clone, Copy, PartialEq, Eq, Structural, Hash)]
pub enum EngineCycle {
    PressureFed,
    GasGenerator,
    Expander,
    StagedCombustion,
    FullFlow,
}

/// Unique identifier for an engine design.
#[derive(Debug, Clone, Copy, PartialEq, Eq, Structural, Hash)]
pub struct EngineId(pub u64);

} // verus!
