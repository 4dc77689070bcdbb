//! The stage-by-stage launch sequence to low Earth orbit.

use vstd::prelude::*;

use rand::Rng;

verus! {

/// The stages of a rocket launch to Low Earth Orbit (LEO), in flight order.
#[derive(Debug, Clone, Copy, PartialEq, Eq, Structural)]
pub enum LaunchStage {
    /// Rocket engines ignite on the pad
    Ignition,
    /// Rocket lifts off from the launch pad
    Liftoff,
    /// Maximum dynamic pressure - most stressful aerodynamic moment
    MaxQ,
    /// First stage separates from second stage
    Stage1Separation,
    /// Second stage engine ignites
    Stage2Ignition,
    /// Main Engine Cutoff - second stage engine shuts down
    MECO,
    /// Final orbital insertion burn
    OrbitInsertion,
}

/// Number of launch stages.
pub const LAUNCH_STAGE_COUNT: usize = 7;

/// Denominator of the per-stage failure chances (per mille).
pub const FAILURE_CHANCE_SCALE: u32 = 1000;

/// Position of a stage in the launch sequence.
pub open spec fn stage_index(s: LaunchStage) -> int {
    match s {
        LaunchStage::Ignition => 0,
        LaunchStage::Liftoff => 1,
        LaunchStage::MaxQ => 2,
        LaunchStage::Stage1Separation => 3,
        LaunchStage::Stage2Ignition => 4,
        LaunchStage::MECO => 5,
        LaunchStage::OrbitInsertion => 6,
    }
}

/// The stage at position `i` of the launch sequence (`i` in 0..7).
pub open spec fn stage_at(i: int) -> LaunchStage {
    if i == 0 {
        LaunchStage::Ignition
    } else if i == 1 {
        LaunchStage::Liftoff
    } else if i == 2 {
        LaunchStage::MaxQ
    } else if i == 3 {
        LaunchStage::Stage1Separation
    } else if i == 4 {
        LaunchStage::Stage2Ignition
    } else if i == 5 {
        LaunchStage::MECO
    } else {
        LaunchStage::OrbitInsertion
    }
}

/// The stage after `s`, `None` after orbital insertion.
pub open spec fn spec_next_stage(s: LaunchStage) -> Option<LaunchStage> {
    if stage_index(s) < 6 {
        Some(stage_at(stage_index(s) + 1))
    } else {
        None
    }
}

/// Chance, in per mille, that a stage fails.
pub open spec fn spec_failure_chance(s: LaunchStage) -> u32 {
    match s {
        LaunchStage::Ignition => 80,
        LaunchStage::Liftoff => 50,
        LaunchStage::MaxQ => 150,
        LaunchStage::Stage1Separation => 100,
        LaunchStage::Stage2Ignition => 70,
        LaunchStage::MECO => 30,
        LaunchStage::OrbitInsertion => 50,
    }
}

/// Human-readable description of a stage.
pub open spec fn stage_description(s: LaunchStage) -> Seq<char> {
    match s {
        LaunchStage::Ignition => "Engine ignition"@,
        LaunchStage::Liftoff => "Liftoff"@,
        LaunchStage::MaxQ => "Max-Q (maximum dynamic pressure)"@,
        LaunchStage::Stage1Separation => "Stage 1 separation"@,
        LaunchStage::Stage2Ignition => "Stage 2 ignition"@,
        LaunchStage::MECO => "MECO (Main Engine Cutoff)"@,
        LaunchStage::OrbitInsertion => "Orbital insertion"@,
    }
}

/// `rand::Rng::gen_ratio` on the thread-local generator: true with probability
/// `numerator / denominator`. Its documentation promises `false` when the numerator is
/// zero and `true` when numerator and denominator are equal; any other outcome is chance.
#[verifier::external_body]
fn thread_gen_ratio(numerator: u32, denominator: u32) -> (b: bool)
    requires
        denominator > 0,
        numerator <= denominator,
    ensures
        numerator == 0 ==> !b,
        numerator == denominator ==> b,
{
    rand::thread_rng().gen_ratio(numerator, denominator)
}

impl LaunchStage {
    /// Chance, out of `FAILURE_CHANCE_SCALE`, that this stage fails.
    pub fn failure_chance_permille(&self) -> (c: u32)
        ensures
            c == spec_failure_chance(*self),
            c <= FAILURE_CHANCE_SCALE,
    {
        match self {
            LaunchStage::Ignition => 80,
            LaunchStage::Liftoff => 50,
            LaunchStage::MaxQ => 150,
            LaunchStage::Stage1Separation => 100,
            LaunchStage::Stage2Ignition => 70,
            LaunchStage::MECO => 30,
            LaunchStage::OrbitInsertion => 50,
        }
    }

    /// Human-readable description of the stage.
    pub fn description(&self) -> (s: &'static str)
        ensures
            s@ == stage_description(*self),
    {
        match self {
            LaunchStage::Ignition => "Engine ignition",
            LaunchStage::Liftoff => "Liftoff",
            LaunchStage::MaxQ => "Max-Q (maximum dynamic pressure)",
            LaunchStage::Stage1Separation => "Stage 1 separation",
            LaunchStage::Stage2Ignition => "Stage 2 ignition",
            LaunchStage::MECO => "MECO (Main Engine Cutoff)",
            LaunchStage::OrbitInsertion => "Orbital insertion",
        }
    }

    /// The next stage in the sequence, or `None` after the final stage.
    pub fn next(&self) -> (n: Option<LaunchStage>)
        ensures
            n == spec_next_stage(*self),
    {
        match self {
            LaunchStage::Ignition => Some(LaunchStage::Liftoff),
            LaunchStage::Liftoff => Some(LaunchStage::MaxQ),
            LaunchStage::MaxQ => Some(LaunchStage::Stage1Separation),
            LaunchStage::Stage1Separation => Some(LaunchStage::Stage2Ignition),
            LaunchStage::Stage2Ignition => Some(LaunchStage::MECO),
            LaunchStage::MECO => Some(LaunchStage::OrbitInsertion),
            LaunchStage::OrbitInsertion => None,
        }
    }

    /// All stages in flight order.
    pub fn all_stages() -> (v: Vec<LaunchStage>)
        ensures
            v@.len() == LAUNCH_STAGE_COUNT,
            forall|i: int| 0 <= i < 7 ==> #[trigger] v@[i] == stage_at(i),
    {
        vec![
            LaunchStage::Ignition,
            LaunchStage::Liftoff,
            LaunchStage::MaxQ,
            LaunchStage::Stage1Separation,
            LaunchStage::Stage2Ignition,
            LaunchStage::MECO,
            LaunchStage::OrbitInsertion,
        ]
    }

    /// Attempts this stage: it fails with its failure chance, drawn from the thread-local
    /// generator. Returns whether the stage succeeded.
    pub fn simulate(&self) -> (passed: bool) {
        !thread_gen_ratio(self.failure_chance_permille(), FAILURE_CHANCE_SCALE)
    }
}

/// The result of a launch attempt.
#[derive(Debug, Clone, PartialEq, Eq, Structural)]
pub enum LaunchResult {
    /// Launch succeeded and reached orbit
    Success,
    /// Launch failed at the specified stage
    Failure { stage: LaunchStage },
}

/// The message shown for a launch result.
pub open spec fn result_message(r: LaunchResult) -> Seq<char> {
    match r {
        LaunchResult::Success => "Success! Rocket reached Low Earth Orbit!"@,
        LaunchResult::Failure { stage } => "Failure during "@ + stage_description(stage)
            + ". Rocket exploded."@,
    }
}

impl LaunchResult {
    /// A human-readable message about the result.
    pub fn message(&self) -> (s: String)
        ensures
            s@ == result_message(*self),
    {
        match self {
            LaunchResult::Success => String::from_str("Success! Rocket reached Low Earth Orbit!"),
            LaunchResult::Failure { stage } => {
                let mut s = String::from_str("Failure during ");
                s.append(stage.description());
                s.append(". Rocket exploded.");
                s
            },
        }
    }
}

/// How a launch ends given the outcome of each attempted stage in flight order
/// (`true` = the stage passed): it fails at the first stage that did not pass,
/// and reaches orbit when all seven passed.
pub open spec fn launch_outcome(passed: Seq<bool>) -> LaunchResult
    decreases passed.len(),
{
    launch_outcome_from(passed, 0)
}

/// `launch_outcome` looking at stages `i` onward.
pub open spec fn launch_outcome_from(passed: Seq<bool>, i: int) -> LaunchResult
    decreases 7 - i,
{
    if i >= 7 || i < 0 {
        LaunchResult::Success
    } else if i < passed.len() && !passed[i] {
        LaunchResult::Failure { stage: stage_at(i) }
    } else {
        launch_outcome_from(passed, i + 1)
    }
}

/// Stage outcomes that a launch can produce: every stage up to the last one passed,
/// and either all seven were attempted or the last attempted one failed.
pub open spec fn is_launch_record(passed: Seq<bool>) -> bool {
    &&& 1 <= passed.len() <= 7
    &&& forall|i: int| 0 <= i < passed.len() - 1 ==> #[trigger] passed[i]
    &&& passed.len() == 7 || !passed.last()
}

/// Launch result for the recorded outcome of each attempted stage.
pub fn launch_result_from_rolls(passed: &Vec<bool>) -> (r: LaunchResult)
    requires
        is_launch_record(passed@),
    ensures
        r == launch_outcome(passed@),
        r == (if passed@.last() {
            LaunchResult::Success
        } else {
            LaunchResult::Failure { stage: stage_at(passed@.len() - 1) }
        }),
{
    let n = passed.len();
    proof {
        lemma_outcome_of_record(passed@, 0);
    }
    if passed[n - 1] {
        LaunchResult::Success
    } else {
        let stage = match n {
            1 => LaunchStage::Ignition,
            2 => LaunchStage::Liftoff,
            3 => LaunchStage::MaxQ,
            4 => LaunchStage::Stage1Separation,
            5 => LaunchStage::Stage2Ignition,
            6 => LaunchStage::MECO,
            _ => LaunchStage::OrbitInsertion,
        };
        LaunchResult::Failure { stage }
    }
}

/// On a launch record the outcome is decided by the last attempted stage.
pub proof fn lemma_outcome_of_record(passed: Seq<bool>, i: int)
    requires
        is_launch_record(passed),
        0 <= i < passed.len(),
    ensures
        launch_outcome_from(passed, i) == (if passed.last() {
            LaunchResult::Success
        } else {
            LaunchResult::Failure { stage: stage_at(passed.len() - 1) }
        }),
    decreases 7 - i,
{
    if i < passed.len() - 1 {
        assert(passed[i]);
        lemma_outcome_of_record(passed, i + 1);
    } else if passed[i] {
        assert(launch_outcome_from(passed, i + 1) == LaunchResult::Success);
    }
}

/// Runs a full launch sequence.
pub struct LaunchSimulator {
    current_stage: Option<LaunchStage>,
}

impl View for LaunchSimulator {
    type V = Option<LaunchStage>;

    closed spec fn view(&self) -> Option<LaunchStage> {
        self.current_stage
    }
}

impl LaunchSimulator {
    /// A new simulator, standing at ignition.
    pub fn new() -> (s: Self)
        ensures
            s@ == Some(LaunchStage::Ignition),
    {
        LaunchSimulator { current_stage: Some(LaunchStage::Ignition) }
    }

    /// Runs a complete launch: each stage in turn is attempted and may fail with its
    /// failure chance; the launch ends at the first failure or after orbital insertion.
    pub fn simulate_launch() -> (r: LaunchResult)
        ensures
            exists|passed: Seq<bool>| is_launch_record(passed) && r == launch_outcome(passed),
    {
        let mut passed: Vec<bool> = Vec::new();
        let mut current_stage = LaunchStage::Ignition;
        let mut done = false;
        while !done
            invariant
                !done ==> passed@.len() == stage_index(current_stage),
                !done ==> forall|i: int| 0 <= i < passed@.len() ==> #[trigger] passed@[i],
                done ==> is_launch_record(passed@),
            decreases (if done { 0 } else { 8 - passed@.len() }),
        {
            let ok = current_stage.simulate();
            passed.push(ok);
            if !ok {
                done = true;
            } else {
                match current_stage.next() {
                    Some(next_stage) => current_stage = next_stage,
                    None => done = true,
                }
            }
        }
        launch_result_from_rolls(&passed)
    }

    /// Runs a complete launch like `simulate_launch`, first handing each stage to
    /// `callback` just before it is attempted.
    pub fn simulate_launch_with_callback<F>(mut callback: F) -> (r: LaunchResult) where
        F: FnMut(LaunchStage),
        requires
            forall|s: LaunchStage| call_requires(callback, (s,)),
        ensures
            exists|passed: Seq<bool>| is_launch_record(passed) && r == launch_outcome(passed),
    {
        let mut passed: Vec<bool> = Vec::new();
        let mut current_stage = LaunchStage::Ignition;
        let mut done = false;
        while !done
            invariant
                forall|s: LaunchStage| call_requires(callback, (s,)),
                !done ==> passed@.len() == stage_index(current_stage),
                !done ==> forall|i: int| 0 <= i < passed@.len() ==> #[trigger] passed@[i],
                done ==> is_launch_record(passed@),
            decreases (if done { 0 } else { 8 - passed@.len() }),
        {
            callback(current_stage);
            let ok = current_stage.simulate();
            passed.push(ok);
            if !ok {
                done = true;
            } else {
                match current_stage.next() {
                    Some(next_stage) => current_stage = next_stage,
                    None => done = true,
                }
            }
        }
        launch_result_from_rolls(&passed)
    }

    /// The current stage of the simulation, if any.
    pub fn current_stage(&self) -> (s: Option<LaunchStage>)
        ensures
            s == self@,
    {
        self.current_stage
    }
}

impl Default for LaunchSimulator {
    fn default() -> (s: Self)
        ensures
            s@ == Some(LaunchStage::Ignition),
    {
        Self::new()
    }
}

/// Following `next` from ignition visits the stages in the order of `all_stages`,
/// and only orbital insertion has no successor.
pub proof fn lemma_next_follows_sequence(i: int)
    requires
        0 <= i < 7,
    ensures
        stage_index(stage_at(i)) == i,
        i < 6 ==> spec_next_stage(stage_at(i)) == Some(stage_at(i + 1)),
        i == 6 ==> spec_next_stage(stage_at(i)) is None,
{
}

} // verus!
