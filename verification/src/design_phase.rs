//! The phases of the design workflow shared by engine and rocket designs, and what each
//! phase allows.

use vstd::prelude::*;

verus! {

/// Where a design stands in its workflow (work progress within a phase is tracked by the
/// caller).
#[derive(Debug, Clone, Copy, PartialEq, Eq, Structural)]
pub enum DesignPhase {
    /// Player is editing the specification
    Specification,
    /// Teams are doing detailed engineering work
    Engineering,
    /// Teams are testing and looking for flaws
    Testing,
    /// Teams are fixing a discovered flaw
    Fixing,
    /// Design is complete and ready for launch
    Complete,
}

/// Display name of each phase.
pub open spec fn phase_name(p: DesignPhase) -> Seq<char> {
    match p {
        DesignPhase::Specification => "Specification"@,
        DesignPhase::Engineering => "Engineering"@,
        DesignPhase::Testing => "Testing"@,
        DesignPhase::Fixing => "Fixing"@,
        DesignPhase::Complete => "Complete"@,
    }
}

impl DesignPhase {
    /// The base status name for display.
    pub fn name(&self) -> (s: &'static str)
        ensures
            s@ == phase_name(*self),
    {
        match self {
            DesignPhase::Specification => "Specification",
            DesignPhase::Engineering => "Engineering",
            DesignPhase::Testing => "Testing",
            DesignPhase::Fixing => "Fixing",
            DesignPhase::Complete => "Complete",
        }
    }

    /// Whether teams are at work on the design (engineering, testing or fixing).
    pub fn is_working(&self) -> (b: bool)
        ensures
            b == (*self == DesignPhase::Engineering || *self == DesignPhase::Testing || *self
                == DesignPhase::Fixing),
    {
        match self {
            DesignPhase::Engineering | DesignPhase::Testing | DesignPhase::Fixing => true,
            _ => false,
        }
    }

    /// Whether the design can be edited (only while it is being specified).
    pub fn can_edit(&self) -> (b: bool)
        ensures
            b == (*self == DesignPhase::Specification),
    {
        match self {
            DesignPhase::Specification => true,
            _ => false,
        }
    }

    /// Whether the design can be launched: when complete, and also while still being
    /// tested or fixed (with known risks).
    pub fn can_launch(&self) -> (b: bool)
        ensures
            b == (*self == DesignPhase::Complete || *self == DesignPhase::Testing || *self
                == DesignPhase::Fixing),
    {
        match self {
            DesignPhase::Complete | DesignPhase::Testing | DesignPhase::Fixing => true,
            _ => false,
        }
    }
}

/// The phase after a day of work on a design in `phase`, where `completed` says whether
/// the current piece of work (engineering, a testing cycle, a flaw fix) was finished: a
/// finished piece leads to (more) testing, otherwise the phase stays.
pub open spec fn spec_phase_after_work(phase: DesignPhase, completed: bool) -> DesignPhase {
    if completed && (phase == DesignPhase::Engineering || phase == DesignPhase::Testing || phase
        == DesignPhase::Fixing) {
        DesignPhase::Testing
    } else {
        phase
    }
}

/// The phase after a day of work (see `spec_phase_after_work`).
pub fn phase_after_work(phase: DesignPhase, completed: bool) -> (p: DesignPhase)
    ensures
        p == spec_phase_after_work(phase, completed),
{
    match phase {
        DesignPhase::Engineering | DesignPhase::Testing | DesignPhase::Fixing => if completed {
            DesignPhase::Testing
        } else {
            phase
        },
        _ => phase,
    }
}

} // verus!
