//! Tuning of engine complexity against the neutral baseline.

use vstd::prelude::*;

verus! {

/// Baseline complexity; complexity 6 (e.g. a kerolox gas-generator engine) is neutral.
pub const COMPLEXITY_BASELINE: i32 = 6;

/// Offset to add to the base flaw count for an engine of the given complexity:
/// zero at the baseline, positive above it and negative below it.
pub fn complexity_flaw_modifier(complexity: i32) -> (r: i32)
    requires
        complexity >= i32::MIN + COMPLEXITY_BASELINE,
    ensures
        r == complexity - COMPLEXITY_BASELINE,
{
    complexity - COMPLEXITY_BASELINE
}

} // verus!
