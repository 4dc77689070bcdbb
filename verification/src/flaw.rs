//! Flaw kinds, triggers and templates, testing levels, and the flaw generator's
//! id allocation and template selection.

use vstd::prelude::*;

use rand::Rng;

use crate::text::{contains_chars, has_infix, lowercase, to_lowercase};
use crate::launcher::{stage_description, LaunchStage};

verus! {

/// Type of flaw: determines what kind of testing discovers it.
#[derive(Clone, Copy, Debug, PartialEq, Eq, Structural)]
pub enum FlawType {
    /// Engine flaws are discovered by engine testing and trigger at ignition events
    Engine,
    /// Design flaws are discovered by rocket testing and trigger at various flight phases
    Design,
}

/// Category of engine flaws: determines which flaw template list to use.
#[derive(Clone, Copy, Debug, PartialEq, Eq, Structural, Hash)]
pub enum FlawCategory {
    /// Liquid engine flaws (turbopumps, injectors, combustion chambers)
    LiquidEngine,
    /// Solid motor flaws (O-rings, grain cracks, nozzle erosion)
    SolidMotor,
}

/// Which launch event triggers a flaw.
#[derive(Clone, Copy, Debug, PartialEq, Eq, Structural)]
pub enum FlawTrigger {
    /// Any ignition event (stage ignition)
    Ignition,
    /// Liftoff event
    Liftoff,
    /// Maximum dynamic pressure
    MaxQ,
    /// Any separation event (stage or booster)
    Separation,
    /// Final payload release (also called orbital insertion)
    PayloadRelease,
}

/// Serialization index of a trigger.
pub open spec fn trigger_index(t: FlawTrigger) -> int {
    match t {
        FlawTrigger::Ignition => 0,
        FlawTrigger::Liftoff => 1,
        FlawTrigger::MaxQ => 2,
        FlawTrigger::Separation => 3,
        FlawTrigger::PayloadRelease => 4,
    }
}

/// The trigger with serialization index `i`, if any.
pub open spec fn trigger_at(i: int) -> Option<FlawTrigger> {
    if i == 0 {
        Some(FlawTrigger::Ignition)
    } else if i == 1 {
        Some(FlawTrigger::Liftoff)
    } else if i == 2 {
        Some(FlawTrigger::MaxQ)
    } else if i == 3 {
        Some(FlawTrigger::Separation)
    } else if i == 4 {
        Some(FlawTrigger::PayloadRelease)
    } else {
        None
    }
}

/// Whether a trigger fires at an event whose lower-cased name is `lower`: the name
/// contains the trigger's keyword ("ignition", "liftoff", "max-q" or "max q",
/// "separation", "payload release" or "orbital insertion").
pub open spec fn trigger_matches(t: FlawTrigger, lower: Seq<char>) -> bool {
    match t {
        FlawTrigger::Ignition => has_infix(lower, "ignition"@),
        FlawTrigger::Liftoff => has_infix(lower, "liftoff"@),
        FlawTrigger::MaxQ => has_infix(lower, "max-q"@) || has_infix(lower, "max q"@),
        FlawTrigger::Separation => has_infix(lower, "separation"@),
        FlawTrigger::PayloadRelease => has_infix(lower, "payload release"@) || has_infix(
            lower,
            "orbital insertion"@,
        ),
    }
}

/// The keywords of each trigger: a flaw with this trigger fires at an event whose
/// lower-cased name contains one of them.
pub open spec fn trigger_keywords(t: FlawTrigger) -> Seq<Seq<char>> {
    match t {
        FlawTrigger::Ignition => seq!["ignition"@],
        FlawTrigger::Liftoff => seq!["liftoff"@],
        FlawTrigger::MaxQ => seq!["max-q"@, "max q"@],
        FlawTrigger::Separation => seq!["separation"@],
        FlawTrigger::PayloadRelease => seq!["payload release"@, "orbital insertion"@],
    }
}

/// Whether the lower-cased event name contains one of the trigger's keywords.
pub open spec fn names_a_keyword(t: FlawTrigger, lower: Seq<char>) -> bool {
    exists|k: int| 0 <= k < trigger_keywords(t).len() && has_infix(lower, #[trigger] trigger_keywords(t)[k])
}

/// A trigger fires at an event exactly when the lower-cased event name contains one of
/// the trigger's keywords: it fires at every name holding one, and at no other name.
pub proof fn lemma_trigger_fires_on_keywords(t: FlawTrigger, lower: Seq<char>)
    ensures
        trigger_matches(t, lower) <==> names_a_keyword(t, lower),
        forall|k: int|
            0 <= k < trigger_keywords(t).len() && has_infix(lower, #[trigger] trigger_keywords(t)[k])
                ==> trigger_matches(t, lower),
{
    let ks = trigger_keywords(t);
    if trigger_matches(t, lower) {
        match t {
            FlawTrigger::MaxQ => {
                if has_infix(lower, "max-q"@) {
                    assert(has_infix(lower, ks[0]));
                } else {
                    assert(has_infix(lower, ks[1]));
                }
            },
            FlawTrigger::PayloadRelease => {
                if has_infix(lower, "payload release"@) {
                    assert(has_infix(lower, ks[0]));
                } else {
                    assert(has_infix(lower, ks[1]));
                }
            },
            _ => {
                assert(has_infix(lower, ks[0]));
            },
        }
    }
}

impl FlawTrigger {
    /// Whether this trigger fires at the event named `event_name`, compared case-insensitively.
    pub fn matches_event(&self, event_name: &str) -> (b: bool)
        ensures
            b == trigger_matches(*self, lowercase(event_name@)),
            b == names_a_keyword(*self, lowercase(event_name@)),
    {
        let event_lower = to_lowercase(event_name);
        proof {
            lemma_trigger_fires_on_keywords(*self, lowercase(event_name@));
        }
        self.matches_lowercase_event(event_lower.as_str())
    }

    /// Whether this trigger fires at an event whose name is already lower-cased.
    pub fn matches_lowercase_event(&self, event_lower: &str) -> (b: bool)
        ensures
            b == trigger_matches(*self, event_lower@),
            b == names_a_keyword(*self, event_lower@),
    {
        proof {
            lemma_trigger_fires_on_keywords(*self, event_lower@);
        }
        match self {
            FlawTrigger::Ignition => contains_chars(event_lower, "ignition"),
            FlawTrigger::Liftoff => contains_chars(event_lower, "liftoff"),
            FlawTrigger::MaxQ => contains_chars(event_lower, "max-q") || contains_chars(
                event_lower,
                "max q",
            ),
            FlawTrigger::Separation => contains_chars(event_lower, "separation"),
            FlawTrigger::PayloadRelease => contains_chars(event_lower, "payload release")
                || contains_chars(event_lower, "orbital insertion"),
        }
    }

    /// Index of the trigger for serialization.
    pub fn to_index(&self) -> (i: i32)
        ensures
            i == trigger_index(*self),
    {
        match self {
            FlawTrigger::Ignition => 0,
            FlawTrigger::Liftoff => 1,
            FlawTrigger::MaxQ => 2,
            FlawTrigger::Separation => 3,
            FlawTrigger::PayloadRelease => 4,
        }
    }

    /// The trigger with the given serialization index.
    pub fn from_index(index: i32) -> (t: Option<FlawTrigger>)
        ensures
            t == trigger_at(index as int),
    {
        match index {
            0 => Some(FlawTrigger::Ignition),
            1 => Some(FlawTrigger::Liftoff),
            2 => Some(FlawTrigger::MaxQ),
            3 => Some(FlawTrigger::Separation),
            4 => Some(FlawTrigger::PayloadRelease),
            _ => None,
        }
    }
}

/// Template for generating flaws: name, description and trigger. Numeric values
/// (failure rate, testing modifier) are drawn when a flaw is made from it.
#[derive(Clone, Debug)]
pub struct FlawTemplate {
    pub name: &'static str,
    pub description: &'static str,
    pub flaw_type: FlawType,
    pub trigger_event_type: FlawTrigger,
}

/// The templates that `liquid_engine_flaw_templates` builds, in order.
pub open spec fn liquid_engine_template_table() -> Seq<FlawTemplate> {
    seq![
        FlawTemplate {
            name: "Turbopump Bearing Defect",
            description: "Microscopic imperfections in turbopump bearings cause premature wear and potential seizure during high-speed operation.",
            flaw_type: FlawType::Engine,
            trigger_event_type: FlawTrigger::Ignition,
        },
        FlawTemplate {
            name: "Combustion Chamber Crack",
            description: "Hairline fractures in the combustion chamber wall can propagate under thermal stress, leading to catastrophic failure.",
            flaw_type: FlawType::Engine,
            trigger_event_type: FlawTrigger::Ignition,
        },
        FlawTemplate {
            name: "Fuel Injector Misalignment",
            description: "Slight misalignment in fuel injectors causes uneven combustion, hot spots, and potential burnthrough.",
            flaw_type: FlawType::Engine,
            trigger_event_type: FlawTrigger::Ignition,
        },
        FlawTemplate {
            name: "Gimbal Actuator Weakness",
            description: "Hydraulic actuators for engine gimbaling have insufficient strength for the required thrust vector control loads.",
            flaw_type: FlawType::Engine,
            trigger_event_type: FlawTrigger::Ignition,
        },
        FlawTemplate {
            name: "Propellant Valve Seal",
            description: "Main propellant valve seals degrade under cryogenic conditions, causing leaks and pressure loss.",
            flaw_type: FlawType::Engine,
            trigger_event_type: FlawTrigger::Ignition,
        },
        FlawTemplate {
            name: "Igniter Reliability Issue",
            description: "Redundant igniters have common-mode failure vulnerability under certain environmental conditions.",
            flaw_type: FlawType::Engine,
            trigger_event_type: FlawTrigger::Ignition,
        },
        FlawTemplate {
            name: "Turbine Blade Resonance",
            description: "Turbine blades resonate at certain RPM ranges, causing metal fatigue and eventual failure.",
            flaw_type: FlawType::Engine,
            trigger_event_type: FlawTrigger::Ignition,
        },
    ]
}

/// Liquid engine flaw templates: found by engine testing, trigger at ignition (kerolox, hydrolox, methalox and hypergolic engines).
pub fn liquid_engine_flaw_templates() -> (v: Vec<FlawTemplate>)
    ensures
        v@ == liquid_engine_template_table(),
{
    vec![
        FlawTemplate {
            name: "Turbopump Bearing Defect",
            description: "Microscopic imperfections in turbopump bearings cause premature wear and potential seizure during high-speed operation.",
            flaw_type: FlawType::Engine,
            trigger_event_type: FlawTrigger::Ignition,
        },
        FlawTemplate {
            name: "Combustion Chamber Crack",
            description: "Hairline fractures in the combustion chamber wall can propagate under thermal stress, leading to catastrophic failure.",
            flaw_type: FlawType::Engine,
            trigger_event_type: FlawTrigger::Ignition,
        },
        FlawTemplate {
            name: "Fuel Injector Misalignment",
            description: "Slight misalignment in fuel injectors causes uneven combustion, hot spots, and potential burnthrough.",
            flaw_type: FlawType::Engine,
            trigger_event_type: FlawTrigger::Ignition,
        },
        FlawTemplate {
            name: "Gimbal Actuator Weakness",
            description: "Hydraulic actuators for engine gimbaling have insufficient strength for the required thrust vector control loads.",
            flaw_type: FlawType::Engine,
            trigger_event_type: FlawTrigger::Ignition,
        },
        FlawTemplate {
            name: "Propellant Valve Seal",
            description: "Main propellant valve seals degrade under cryogenic conditions, causing leaks and pressure loss.",
            flaw_type: FlawType::Engine,
            trigger_event_type: FlawTrigger::Ignition,
        },
        FlawTemplate {
            name: "Igniter Reliability Issue",
            description: "Redundant igniters have common-mode failure vulnerability under certain environmental conditions.",
            flaw_type: FlawType::Engine,
            trigger_event_type: FlawTrigger::Ignition,
        },
        FlawTemplate {
            name: "Turbine Blade Resonance",
            description: "Turbine blades resonate at certain RPM ranges, causing metal fatigue and eventual failure.",
            flaw_type: FlawType::Engine,
            trigger_event_type: FlawTrigger::Ignition,
        },
    ]
}

/// The templates that `solid_motor_flaw_templates` builds, in order.
pub open spec fn solid_motor_template_table() -> Seq<FlawTemplate> {
    seq![
        FlawTemplate {
            name: "O-Ring Seal Defect",
            description: "Field joint O-rings lose elasticity in cold conditions, allowing hot gas blow-by and joint failure.",
            flaw_type: FlawType::Engine,
            trigger_event_type: FlawTrigger::Ignition,
        },
        FlawTemplate {
            name: "Propellant Grain Crack",
            description: "Internal cracks in the solid propellant grain cause uneven burning and potential case burn-through.",
            flaw_type: FlawType::Engine,
            trigger_event_type: FlawTrigger::Ignition,
        },
        FlawTemplate {
            name: "Nozzle Throat Erosion",
            description: "Excessive erosion of the nozzle throat causes loss of chamber pressure and thrust reduction.",
            flaw_type: FlawType::Engine,
            trigger_event_type: FlawTrigger::Ignition,
        },
        FlawTemplate {
            name: "Case Insulation Failure",
            description: "Internal insulation fails to protect the motor case from combustion heat, causing structural failure.",
            flaw_type: FlawType::Engine,
            trigger_event_type: FlawTrigger::Ignition,
        },
        FlawTemplate {
            name: "Igniter Squib Malfunction",
            description: "Pyrotechnic igniter fails to produce sufficient heat to reliably ignite the main propellant grain.",
            flaw_type: FlawType::Engine,
            trigger_event_type: FlawTrigger::Ignition,
        },
    ]
}

/// Solid motor flaw templates: found by engine testing, trigger at ignition.
pub fn solid_motor_flaw_templates() -> (v: Vec<FlawTemplate>)
    ensures
        v@ == solid_motor_template_table(),
{
    vec![
        FlawTemplate {
            name: "O-Ring Seal Defect",
            description: "Field joint O-rings lose elasticity in cold conditions, allowing hot gas blow-by and joint failure.",
            flaw_type: FlawType::Engine,
            trigger_event_type: FlawTrigger::Ignition,
        },
        FlawTemplate {
            name: "Propellant Grain Crack",
            description: "Internal cracks in the solid propellant grain cause uneven burning and potential case burn-through.",
            flaw_type: FlawType::Engine,
            trigger_event_type: FlawTrigger::Ignition,
        },
        FlawTemplate {
            name: "Nozzle Throat Erosion",
            description: "Excessive erosion of the nozzle throat causes loss of chamber pressure and thrust reduction.",
            flaw_type: FlawType::Engine,
            trigger_event_type: FlawTrigger::Ignition,
        },
        FlawTemplate {
            name: "Case Insulation Failure",
            description: "Internal insulation fails to protect the motor case from combustion heat, causing structural failure.",
            flaw_type: FlawType::Engine,
            trigger_event_type: FlawTrigger::Ignition,
        },
        FlawTemplate {
            name: "Igniter Squib Malfunction",
            description: "Pyrotechnic igniter fails to produce sufficient heat to reliably ignite the main propellant grain.",
            flaw_type: FlawType::Engine,
            trigger_event_type: FlawTrigger::Ignition,
        },
    ]
}

/// The templates that `design_flaw_templates` builds, in order.
pub open spec fn design_template_table() -> Seq<FlawTemplate> {
    seq![
        FlawTemplate {
            name: "Structural Resonance",
            description: "Vehicle natural frequency matches aerodynamic buffet frequency during max-Q, causing destructive oscillations.",
            flaw_type: FlawType::Design,
            trigger_event_type: FlawTrigger::MaxQ,
        },
        FlawTemplate {
            name: "Stage Separation Bolt Defect",
            description: "Explosive bolts for stage separation have inconsistent charge, leading to asymmetric separation.",
            flaw_type: FlawType::Design,
            trigger_event_type: FlawTrigger::Separation,
        },
        FlawTemplate {
            name: "Guidance Software Bug",
            description: "Edge case in guidance algorithms causes incorrect attitude determination under specific orbital conditions.",
            flaw_type: FlawType::Design,
            trigger_event_type: FlawTrigger::PayloadRelease,
        },
        FlawTemplate {
            name: "Propellant Slosh Instability",
            description: "Propellant sloshing in partially-filled tanks couples with control system, causing loss of control.",
            flaw_type: FlawType::Design,
            trigger_event_type: FlawTrigger::MaxQ,
        },
        FlawTemplate {
            name: "Thermal Protection Gap",
            description: "Gaps in aerodynamic heating protection allow hot gases to damage structure during ascent.",
            flaw_type: FlawType::Design,
            trigger_event_type: FlawTrigger::MaxQ,
        },
        FlawTemplate {
            name: "Interstage Coupler Flaw",
            description: "Interstage structure has insufficient strength for the separation loads under all flight conditions.",
            flaw_type: FlawType::Design,
            trigger_event_type: FlawTrigger::Separation,
        },
        FlawTemplate {
            name: "Avionics Thermal Margin",
            description: "Flight computer cooling is inadequate for extended powered flight, causing thermal shutdown.",
            flaw_type: FlawType::Design,
            trigger_event_type: FlawTrigger::PayloadRelease,
        },
        FlawTemplate {
            name: "Fairing Separation Failure",
            description: "Payload fairing separation system has unreliable pyrotechnic actuators.",
            flaw_type: FlawType::Design,
            trigger_event_type: FlawTrigger::Separation,
        },
        FlawTemplate {
            name: "Liftoff Clamp Release",
            description: "Hold-down clamps release sequence has timing issues that can tip the vehicle.",
            flaw_type: FlawType::Design,
            trigger_event_type: FlawTrigger::Liftoff,
        },
        FlawTemplate {
            name: "Acoustic Vibration Damage",
            description: "Launch acoustic environment exceeds component qualification levels in some areas.",
            flaw_type: FlawType::Design,
            trigger_event_type: FlawTrigger::Liftoff,
        },
    ]
}

/// Design flaw templates: found by rocket testing, trigger at various flight phases.
pub fn design_flaw_templates() -> (v: Vec<FlawTemplate>)
    ensures
        v@ == design_template_table(),
{
    vec![
        FlawTemplate {
            name: "Structural Resonance",
            description: "Vehicle natural frequency matches aerodynamic buffet frequency during max-Q, causing destructive oscillations.",
            flaw_type: FlawType::Design,
            trigger_event_type: FlawTrigger::MaxQ,
        },
        FlawTemplate {
            name: "Stage Separation Bolt Defect",
            description: "Explosive bolts for stage separation have inconsistent charge, leading to asymmetric separation.",
            flaw_type: FlawType::Design,
            trigger_event_type: FlawTrigger::Separation,
        },
        FlawTemplate {
            name: "Guidance Software Bug",
            description: "Edge case in guidance algorithms causes incorrect attitude determination under specific orbital conditions.",
            flaw_type: FlawType::Design,
            trigger_event_type: FlawTrigger::PayloadRelease,
        },
        FlawTemplate {
            name: "Propellant Slosh Instability",
            description: "Propellant sloshing in partially-filled tanks couples with control system, causing loss of control.",
            flaw_type: FlawType::Design,
            trigger_event_type: FlawTrigger::MaxQ,
        },
        FlawTemplate {
            name: "Thermal Protection Gap",
            description: "Gaps in aerodynamic heating protection allow hot gases to damage structure during ascent.",
            flaw_type: FlawType::Design,
            trigger_event_type: FlawTrigger::MaxQ,
        },
        FlawTemplate {
            name: "Interstage Coupler Flaw",
            description: "Interstage structure has insufficient strength for the separation loads under all flight conditions.",
            flaw_type: FlawType::Design,
            trigger_event_type: FlawTrigger::Separation,
        },
        FlawTemplate {
            name: "Avionics Thermal Margin",
            description: "Flight computer cooling is inadequate for extended powered flight, causing thermal shutdown.",
            flaw_type: FlawType::Design,
            trigger_event_type: FlawTrigger::PayloadRelease,
        },
        FlawTemplate {
            name: "Fairing Separation Failure",
            description: "Payload fairing separation system has unreliable pyrotechnic actuators.",
            flaw_type: FlawType::Design,
            trigger_event_type: FlawTrigger::Separation,
        },
        FlawTemplate {
            name: "Liftoff Clamp Release",
            description: "Hold-down clamps release sequence has timing issues that can tip the vehicle.",
            flaw_type: FlawType::Design,
            trigger_event_type: FlawTrigger::Liftoff,
        },
        FlawTemplate {
            name: "Acoustic Vibration Damage",
            description: "Launch acoustic environment exceeds component qualification levels in some areas.",
            flaw_type: FlawType::Design,
            trigger_event_type: FlawTrigger::Liftoff,
        },
    ]
}

/// Qualitative assessment of how well-tested a design is, shown instead of exact
/// success rates.
#[derive(Debug, Clone, Copy, PartialEq, Eq, Structural, PartialOrd, Ord)]
pub enum TestingLevel {
    Untested,
    LightlyTested,
    ModeratelyTested,
    WellTested,
    ThoroughlyTested,
}

/// Integer index of a testing level (0 = untested ... 4 = thoroughly tested).
pub open spec fn testing_level_index(l: TestingLevel) -> int {
    match l {
        TestingLevel::Untested => 0,
        TestingLevel::LightlyTested => 1,
        TestingLevel::ModeratelyTested => 2,
        TestingLevel::WellTested => 3,
        TestingLevel::ThoroughlyTested => 4,
    }
}

/// The testing level of an index, clamping indices below 0 to untested and above 4
/// to thoroughly tested.
pub open spec fn testing_level_at(i: int) -> TestingLevel {
    if i <= 0 {
        TestingLevel::Untested
    } else if i == 1 {
        TestingLevel::LightlyTested
    } else if i == 2 {
        TestingLevel::ModeratelyTested
    } else if i == 3 {
        TestingLevel::WellTested
    } else {
        TestingLevel::ThoroughlyTested
    }
}

/// Display name of a testing level.
pub open spec fn testing_level_name(l: TestingLevel) -> Seq<char> {
    match l {
        TestingLevel::Untested => "Untested"@,
        TestingLevel::LightlyTested => "Lightly Tested"@,
        TestingLevel::ModeratelyTested => "Moderately Tested"@,
        TestingLevel::WellTested => "Well Tested"@,
        TestingLevel::ThoroughlyTested => "Thoroughly Tested"@,
    }
}

impl TestingLevel {
    /// Human-readable name for display.
    pub fn name(&self) -> (s: &'static str)
        ensures
            s@ == testing_level_name(*self),
    {
        match self {
            TestingLevel::Untested => "Untested",
            TestingLevel::LightlyTested => "Lightly Tested",
            TestingLevel::ModeratelyTested => "Moderately Tested",
            TestingLevel::WellTested => "Well Tested",
            TestingLevel::ThoroughlyTested => "Thoroughly Tested",
        }
    }

    /// Integer index for script interop.
    pub fn to_index(&self) -> (i: i32)
        ensures
            i == testing_level_index(*self),
    {
        match self {
            TestingLevel::Untested => 0,
            TestingLevel::LightlyTested => 1,
            TestingLevel::ModeratelyTested => 2,
            TestingLevel::WellTested => 3,
            TestingLevel::ThoroughlyTested => 4,
        }
    }

    /// Level from an integer index; out-of-range indices clamp to the nearest level.
    pub fn from_index(i: i32) -> (l: TestingLevel)
        ensures
            l == testing_level_at(i as int),
    {
        match i {
            0 => TestingLevel::Untested,
            1 => TestingLevel::LightlyTested,
            2 => TestingLevel::ModeratelyTested,
            3 => TestingLevel::WellTested,
            4 => TestingLevel::ThoroughlyTested,
            _ => if i < 0 {
                TestingLevel::Untested
            } else {
                TestingLevel::ThoroughlyTested
            },
        }
    }
}

/// `rand::Rng::gen_range` over `low..high` on the thread-local generator: a value
/// drawn from that half-open range (which must not be empty).
#[verifier::external_body]
fn thread_gen_range(low: usize, high: usize) -> (r: usize)
    requires
        low < high,
    ensures
        low <= r < high,
{
    rand::thread_rng().gen_range(low..high)
}

/// Indices into a list of `len` items chosen by `pick_distinct_indices`: `min(count, len)`
/// of them, each in range, no two equal.
pub open spec fn is_distinct_pick(picked: Seq<usize>, len: nat, count: nat) -> bool {
    &&& picked.len() == if count < len { count } else { len }
    &&& forall|k: int| 0 <= k < picked.len() ==> #[trigger] picked[k] < len
    &&& forall|a: int, b: int| 0 <= a < b < picked.len() ==> picked[a] != picked[b]
}

/// Draws for a Fisher-Yates shuffle of `0..len`: at most `len` of them, the one for
/// step `i` lying in `i..len`.
pub open spec fn valid_draws(draws: Seq<usize>, len: nat) -> bool {
    &&& draws.len() <= len
    &&& forall|i: int| 0 <= i < draws.len() ==> i <= #[trigger] draws[i] < len
}

/// The list `0..len` after the first `n` steps of a Fisher-Yates shuffle: step `i` swaps
/// position `i` with position `draws[i]`.
pub open spec fn shuffled(len: nat, draws: Seq<usize>, n: nat) -> Seq<usize>
    decreases n,
{
    if n == 0 {
        Seq::new(len, |k: int| k as usize)
    } else {
        let s = shuffled(len, draws, (n - 1) as nat);
        let i = n - 1;
        let j = draws[i] as int;
        s.update(i, s[j]).update(j, s[i])
    }
}

/// The indices a Fisher-Yates shuffle of `0..len` with the given draws puts in its first
/// `draws.len()` positions.
pub open spec fn fisher_yates_prefix(len: nat, draws: Seq<usize>) -> Seq<usize> {
    shuffled(len, draws, draws.len()).take(draws.len() as int)
}

/// Every step of the shuffle keeps a permutation of `0..len`: the same length, every entry
/// below `len`, no entry twice.
pub proof fn lemma_shuffled_permutation(len: nat, draws: Seq<usize>, n: nat)
    requires
        len <= usize::MAX,
        valid_draws(draws, len),
        n <= draws.len(),
    ensures
        shuffled(len, draws, n).len() == len,
        forall|k: int| 0 <= k < len ==> #[trigger] shuffled(len, draws, n)[k] < len,
        forall|a: int, b: int|
            0 <= a < b < len ==> shuffled(len, draws, n)[a] != shuffled(len, draws, n)[b],
    decreases n,
{
    if n > 0 {
        lemma_shuffled_permutation(len, draws, (n - 1) as nat);
        let s = shuffled(len, draws, (n - 1) as nat);
        let i = n - 1;
        let j = draws[i as int] as int;
        let t = shuffled(len, draws, n);
        assert(t == s.update(i as int, s[j]).update(j, s[i as int]));
        assert forall|a: int, b: int| 0 <= a < b < len implies t[a] != t[b] by {
            let a0 = if a == i { j } else if a == j { i as int } else { a };
            let b0 = if b == i { j } else if b == j { i as int } else { b };
            assert(t[a] == s[a0]);
            assert(t[b] == s[b0]);
            assert(a0 != b0);
            if a0 < b0 {
                assert(s[a0] != s[b0]);
            } else {
                assert(s[b0] != s[a0]);
            }
        }
        assert forall|k: int| 0 <= k < len implies #[trigger] t[k] < len by {
            let k0 = if k == i { j } else if k == j { i as int } else { k };
            assert(t[k] == s[k0]);
        }
    } else {
        let t = shuffled(len, draws, 0);
        assert forall|a: int, b: int| 0 <= a < b < len implies t[a] != t[b] by {
            assert(t[a] == a as usize);
            assert(t[b] == b as usize);
        }
    }
}

/// The prefix a shuffle with `min(count, len)` draws picks is a distinct pick.
pub proof fn lemma_fisher_yates_prefix_distinct(len: nat, draws: Seq<usize>, count: nat)
    requires
        len <= usize::MAX,
        valid_draws(draws, len),
        draws.len() == if count < len { count } else { len },
    ensures
        is_distinct_pick(fisher_yates_prefix(len, draws), len, count),
{
    lemma_shuffled_permutation(len, draws, draws.len());
    let s = shuffled(len, draws, draws.len());
    let p = fisher_yates_prefix(len, draws);
    assert forall|k: int| 0 <= k < p.len() implies #[trigger] p[k] < len by {
        assert(p[k] == s[k]);
    }
    assert forall|a: int, b: int| 0 <= a < b < p.len() implies p[a] != p[b] by {
        assert(p[a] == s[a]);
        assert(p[b] == s[b]);
    }
}

/// The first `draws.len()` indices of a Fisher-Yates shuffle of `0..len` driven by the
/// given draws: step `i` swaps position `i` with position `draws[i]`.
pub fn shuffle_prefix(len: usize, draws: &Vec<usize>) -> (picked: Vec<usize>)
    requires
        valid_draws(draws@, len as nat),
    ensures
        picked@ == fisher_yates_prefix(len as nat, draws@),
{
    let mut indices: Vec<usize> = Vec::new();
    let mut k: usize = 0;
    while k < len
        invariant
            k <= len,
            indices@.len() == k,
            forall|a: int| 0 <= a < k ==> #[trigger] indices@[a] == a,
        decreases len - k,
    {
        indices.push(k);
        k = k + 1;
    }
    proof {
        assert(indices@ =~= shuffled(len as nat, draws@, 0));
    }
    let n = draws.len();
    let mut i: usize = 0;
    while i < n
        invariant
            n == draws@.len(),
            valid_draws(draws@, len as nat),
            i <= n,
            indices@ == shuffled(len as nat, draws@, i as nat),
            indices@.len() == len,
        decreases n - i,
    {
        let j = draws[i];
        let at_i = indices[i];
        let at_j = indices[j];
        indices.set(i, at_j);
        indices.set(j, at_i);
        i = i + 1;
    }
    let mut picked: Vec<usize> = Vec::new();
    let mut m: usize = 0;
    while m < n
        invariant
            n == draws@.len(),
            n <= len,
            m <= n,
            indices@ == shuffled(len as nat, draws@, n as nat),
            indices@.len() == len,
            picked@ == indices@.subrange(0, m as int),
        decreases n - m,
    {
        picked.push(indices[m]);
        m = m + 1;
        proof {
            assert(picked@ =~= indices@.subrange(0, m as int));
        }
    }
    proof {
        assert(picked@ =~= fisher_yates_prefix(len as nat, draws@));
    }
    picked
}

/// Picks `min(count, len)` distinct indices below `len` at random: draw `i` is taken at
/// random from `i..len`, and the draws drive the first steps of a Fisher-Yates shuffle of
/// `0..len`.
pub fn pick_distinct_indices(len: usize, count: usize) -> (picked: Vec<usize>)
    ensures
        exists|draws: Seq<usize>|
            #![trigger fisher_yates_prefix(len as nat, draws)]
            valid_draws(draws, len as nat) && draws.len() == (if count < len { count } else { len })
                && picked@ == fisher_yates_prefix(len as nat, draws),
        is_distinct_pick(picked@, len as nat, count as nat),
{
    let count = if count < len {
        count
    } else {
        len
    };
    let mut draws: Vec<usize> = Vec::new();
    let mut i: usize = 0;
    while i < count
        invariant
            count <= len,
            i <= count,
            draws@.len() == i,
            forall|a: int| 0 <= a < i ==> a <= #[trigger] draws@[a] < len,
        decreases count - i,
    {
        let j = thread_gen_range(i, len);
        draws.push(j);
        i = i + 1;
    }
    let picked = shuffle_prefix(len, &draws);
    proof {
        lemma_fisher_yates_prefix_distinct(len as nat, draws@, count as nat);
    }
    picked
}

/// Whether an active flaw can cause a failure on a stage: design flaws can on any stage;
/// an engine flaw only on a stage that mounts the engine design it belongs to (both known).
pub open spec fn spec_flaw_applies_to_stage(
    flaw_type: FlawType,
    flaw_engine: Option<usize>,
    stage_engine: Option<usize>,
) -> bool {
    match flaw_type {
        FlawType::Engine => flaw_engine is Some && stage_engine is Some && flaw_engine == stage_engine,
        FlawType::Design => true,
    }
}

/// Whether a flaw of type `flaw_type`, tied to engine design `flaw_engine`, can cause a
/// failure on a stage that mounts engine design `stage_engine`.
pub fn flaw_applies_to_stage(
    flaw_type: FlawType,
    flaw_engine: Option<usize>,
    stage_engine: Option<usize>,
) -> (b: bool)
    ensures
        b == spec_flaw_applies_to_stage(flaw_type, flaw_engine, stage_engine),
{
    match flaw_type {
        FlawType::Engine => match (flaw_engine, stage_engine) {
            (Some(f), Some(s)) => f == s,
            _ => false,
        },
        FlawType::Design => true,
    }
}

/// The engine flaw templates of a category.
pub open spec fn category_template_table(category: FlawCategory) -> Seq<FlawTemplate> {
    match category {
        FlawCategory::LiquidEngine => liquid_engine_template_table(),
        FlawCategory::SolidMotor => solid_motor_template_table(),
    }
}

/// No two templates share a name.
pub open spec fn names_distinct(t: Seq<FlawTemplate>) -> bool {
    forall|i: int, j: int| 0 <= i < j < t.len() ==> (#[trigger] t[i]).name@ != (#[trigger] t[j]).name@
}

/// Within each category, the engine flaw templates have pairwise distinct names.
pub proof fn lemma_engine_template_names_distinct(category: FlawCategory)
    ensures
        names_distinct(category_template_table(category)),
{
    reveal_strlit("Turbopump Bearing Defect");
    reveal_strlit("Combustion Chamber Crack");
    reveal_strlit("Fuel Injector Misalignment");
    reveal_strlit("Gimbal Actuator Weakness");
    reveal_strlit("Propellant Valve Seal");
    reveal_strlit("Igniter Reliability Issue");
    reveal_strlit("Turbine Blade Resonance");
    reveal_strlit("O-Ring Seal Defect");
    reveal_strlit("Propellant Grain Crack");
    reveal_strlit("Nozzle Throat Erosion");
    reveal_strlit("Case Insulation Failure");
    reveal_strlit("Igniter Squib Malfunction");
    let t = category_template_table(category);
    assert forall|i: int, j: int| 0 <= i < j < t.len() implies (#[trigger] t[i]).name@ != (
    #[trigger] t[j]).name@ by {
        assert(t[i].name@[0] != t[j].name@[0] || t[i].name@[1] != t[j].name@[1] || t[i].name@.len()
            != t[j].name@.len() || t[i].name@[2] != t[j].name@[2]);
    }
}

/// The design flaw templates have pairwise distinct names.
pub proof fn lemma_design_template_names_distinct()
    ensures
        names_distinct(design_template_table()),
{
    reveal_strlit("Structural Resonance");
    reveal_strlit("Stage Separation Bolt Defect");
    reveal_strlit("Guidance Software Bug");
    reveal_strlit("Propellant Slosh Instability");
    reveal_strlit("Thermal Protection Gap");
    reveal_strlit("Interstage Coupler Flaw");
    reveal_strlit("Avionics Thermal Margin");
    reveal_strlit("Fairing Separation Failure");
    reveal_strlit("Liftoff Clamp Release");
    reveal_strlit("Acoustic Vibration Damage");
    let t = design_template_table();
    assert forall|i: int, j: int| 0 <= i < j < t.len() implies (#[trigger] t[i]).name@ != (
    #[trigger] t[j]).name@ by {
        assert(t[i].name@[0] != t[j].name@[0] || t[i].name@[1] != t[j].name@[1] || t[i].name@[2]
            != t[j].name@[2]);
    }
}

/// Hands out flaw ids (1, 2, 3, ...) and picks flaw templates.
#[derive(Debug, Clone)]
pub struct FlawGenerator {
    next_id: u32,
}

impl View for FlawGenerator {
    type V = nat;

    /// The id the next flaw will get.
    closed spec fn view(&self) -> nat {
        self.next_id as nat
    }
}

impl FlawGenerator {
    /// A generator whose first flaw id is 1.
    pub fn new() -> (g: Self)
        ensures
            g@ == 1,
    {
        FlawGenerator { next_id: 1 }
    }

    /// The flaw templates of a category.
    pub fn templates_for_category(category: FlawCategory) -> (v: Vec<FlawTemplate>)
        ensures
            v@ == category_template_table(category),
            category == FlawCategory::LiquidEngine ==> v@.len() == 7,
            category == FlawCategory::SolidMotor ==> v@.len() == 5,
            forall|k: int|
                0 <= k < v@.len() ==> (#[trigger] v@[k]).flaw_type == FlawType::Engine
                    && v@[k].trigger_event_type == FlawTrigger::Ignition,
            names_distinct(v@),
    {
        proof {
            lemma_engine_template_names_distinct(category);
        }
        match category {
            FlawCategory::LiquidEngine => liquid_engine_flaw_templates(),
            FlawCategory::SolidMotor => solid_motor_flaw_templates(),
        }
    }

    /// The id the next flaw will get, without handing it out.
    pub fn peek_next_id(&self) -> (id: u32)
        ensures
            id == self@,
    {
        self.next_id
    }

    /// The id for the next flaw; ids are handed out in increasing order.
    pub fn next_flaw_id(&mut self) -> (id: u32)
        requires
            old(self)@ < u32::MAX,
        ensures
            id == old(self)@,
            final(self)@ == old(self)@ + 1,
    {
        let id = self.next_id;
        self.next_id = self.next_id + 1;
        id
    }

    /// Up to `count` distinct templates, chosen at random without replacement.
    pub fn select_random_templates<'a>(&self, templates: &'a Vec<FlawTemplate>, count: usize) -> (v:
        Vec<&'a FlawTemplate>)
        ensures
            exists|draws: Seq<usize>|
                #![trigger fisher_yates_prefix(templates@.len(), draws)]
                valid_draws(draws, templates@.len()) && draws.len() == (if count < templates@.len() {
                    count as nat
                } else {
                    templates@.len()
                }) && v@.len() == draws.len() && forall|k: int|
                    0 <= k < draws.len() ==> *v@[k] == templates@[#[trigger] fisher_yates_prefix(
                        templates@.len(),
                        draws,
                    )[k] as int],
            exists|picked: Seq<usize>|
                #![trigger is_distinct_pick(picked, templates@.len(), count as nat)]
                is_distinct_pick(picked, templates@.len(), count as nat) && v@.len() == picked.len()
                    && forall|k: int| 0 <= k < picked.len() ==> *v@[k] == templates@[#[trigger] picked[k] as int],
    {
        let picked = pick_distinct_indices(templates.len(), count);
        let mut v: Vec<&'a FlawTemplate> = Vec::new();
        let mut k: usize = 0;
        while k < picked.len()
            invariant
                k <= picked@.len(),
                is_distinct_pick(picked@, templates@.len(), count as nat),
                v@.len() == k,
                forall|a: int| 0 <= a < k ==> *v@[a] == templates@[#[trigger] picked@[a] as int],
            decreases picked@.len() - k,
        {
            v.push(&templates[picked[k]]);
            k = k + 1;
        }
        v
    }
}

impl Default for FlawGenerator {
    fn default() -> (g: Self)
        ensures
            g@ == 1,
    {
        Self::new()
    }
}

/// Serialization indices and testing-level indices round-trip.
pub proof fn lemma_flaw_index_roundtrips(t: FlawTrigger, l: TestingLevel, i: int)
    ensures
        trigger_at(trigger_index(t)) == Some(t),
        0 <= i <= 4 ==> trigger_index(trigger_at(i).unwrap()) == i,
        trigger_at(i) is Some <==> 0 <= i <= 4,
        testing_level_at(testing_level_index(l)) == l,
        0 <= i <= 4 ==> testing_level_index(testing_level_at(i)) == i,
        i < 0 ==> testing_level_at(i) == TestingLevel::Untested,
        i > 4 ==> testing_level_at(i) == TestingLevel::ThoroughlyTested,
{
}

/// ASCII lower-casing of one character: `A`-`Z` become `a`-`z`, everything else stays.
pub open spec fn ascii_lower_char(c: char) -> char {
    if 'A' <= c && c <= 'Z' {
        ((c as u32) + 32) as char
    } else {
        c
    }
}

/// ASCII lower-casing of a text.
pub open spec fn ascii_lowercase(s: Seq<char>) -> Seq<char> {
    Seq::new(s.len(), |i: int| ascii_lower_char(s[i]))
}

/// The event of a launch stage as flaw triggers read it: its description in lower case.
pub open spec fn stage_event_lower(s: LaunchStage) -> Seq<char> {
    ascii_lowercase(stage_description(s))
}

/// The kind of flaw each launch stage's event sets off: ignitions set off ignition
/// flaws, the stage separation separation flaws, orbital insertion payload-release
/// flaws, liftoff and Max-Q their own; main engine cutoff sets off none.
pub open spec fn stage_trigger(s: LaunchStage) -> Option<FlawTrigger> {
    match s {
        LaunchStage::Ignition => Some(FlawTrigger::Ignition),
        LaunchStage::Liftoff => Some(FlawTrigger::Liftoff),
        LaunchStage::MaxQ => Some(FlawTrigger::MaxQ),
        LaunchStage::Stage1Separation => Some(FlawTrigger::Separation),
        LaunchStage::Stage2Ignition => Some(FlawTrigger::Ignition),
        LaunchStage::MECO => None,
        LaunchStage::OrbitInsertion => Some(FlawTrigger::PayloadRelease),
    }
}

/// A text that has `needle` at position `i` contains it.
proof fn lemma_infix_at(hay: Seq<char>, needle: Seq<char>, i: int)
    requires
        0 <= i,
        i + needle.len() <= hay.len(),
        hay.subrange(i, i + needle.len()) =~= needle,
    ensures
        has_infix(hay, needle),
{
}

/// A text that lacks one of `needle`'s characters does not contain it.
proof fn lemma_missing_char(hay: Seq<char>, needle: Seq<char>, d: int)
    requires
        0 <= d < needle.len(),
        forall|i: int| 0 <= i < hay.len() ==> #[trigger] hay[i] != needle[d],
    ensures
        !has_infix(hay, needle),
{
    if has_infix(hay, needle) {
        let i = choose|i: int|
            0 <= i && i + needle.len() <= hay.len() && #[trigger] hay.subrange(i, i + needle.len()) == needle;
        assert(hay.subrange(i, i + needle.len())[d] == hay[i + d]);
    }
}

/// A text in which two adjacent characters of `needle` never follow each other does not
/// contain it.
proof fn lemma_missing_pair(hay: Seq<char>, needle: Seq<char>, d: int)
    requires
        0 <= d < needle.len() - 1,
        forall|i: int| 0 <= i < hay.len() - 1 ==> !(#[trigger] hay[i] == needle[d] && hay[i + 1] == needle[d + 1]),
    ensures
        !has_infix(hay, needle),
{
    if has_infix(hay, needle) {
        let i = choose|i: int|
            0 <= i && i + needle.len() <= hay.len() && #[trigger] hay.subrange(i, i + needle.len()) == needle;
        assert(hay.subrange(i, i + needle.len())[d] == hay[i + d]);
        assert(hay.subrange(i, i + needle.len())[d + 1] == hay[i + d + 1]);
    }
}

proof fn lemma_event_of_ignition(t: FlawTrigger)
    ensures
        trigger_matches(t, stage_event_lower(LaunchStage::Ignition)) <==> stage_trigger(LaunchStage::Ignition) == Some(t),
{
    reveal_strlit("Engine ignition");
    reveal_strlit("engine ignition");
    reveal_strlit("ignition");
    reveal_strlit("liftoff");
    reveal_strlit("max-q");
    reveal_strlit("max q");
    reveal_strlit("separation");
    reveal_strlit("payload release");
    reveal_strlit("orbital insertion");
    let h = stage_event_lower(LaunchStage::Ignition);
    assert(h =~= "engine ignition"@);
    lemma_infix_at(h, "ignition"@, 7);
    lemma_missing_char(h, "liftoff"@, 0);
    lemma_missing_char(h, "max-q"@, 0);
    lemma_missing_char(h, "max q"@, 0);
    lemma_missing_char(h, "separation"@, 0);
    lemma_missing_char(h, "payload release"@, 0);
    lemma_missing_char(h, "orbital insertion"@, 1);
}

#[verifier::rlimit(50)]
proof fn lemma_event_of_liftoff(t: FlawTrigger)
    ensures
        trigger_matches(t, stage_event_lower(LaunchStage::Liftoff)) <==> stage_trigger(LaunchStage::Liftoff) == Some(t),
{
    reveal_strlit("Liftoff");
    reveal_strlit("liftoff");
    reveal_strlit("ignition");
    reveal_strlit("liftoff");
    reveal_strlit("max-q");
    reveal_strlit("max q");
    reveal_strlit("separation");
    reveal_strlit("payload release");
    reveal_strlit("orbital insertion");
    let h = stage_event_lower(LaunchStage::Liftoff);
    assert(h =~= "liftoff"@);
    lemma_missing_char(h, "ignition"@, 1);
    lemma_infix_at(h, "liftoff"@, 0);
    lemma_missing_char(h, "max-q"@, 0);
    lemma_missing_char(h, "max q"@, 0);
    lemma_missing_char(h, "separation"@, 0);
    lemma_missing_char(h, "payload release"@, 0);
    lemma_missing_char(h, "orbital insertion"@, 1);
}

proof fn lemma_event_of_max_q(t: FlawTrigger)
    ensures
        trigger_matches(t, stage_event_lower(LaunchStage::MaxQ)) <==> stage_trigger(LaunchStage::MaxQ) == Some(t),
{
    reveal_strlit("Max-Q (maximum dynamic pressure)");
    reveal_strlit("max-q (maximum dynamic pressure)");
    reveal_strlit("ignition");
    reveal_strlit("liftoff");
    reveal_strlit("max-q");
    reveal_strlit("max q");
    reveal_strlit("separation");
    reveal_strlit("payload release");
    reveal_strlit("orbital insertion");
    let h = stage_event_lower(LaunchStage::MaxQ);
    assert(h =~= "max-q (maximum dynamic pressure)"@);
    lemma_missing_char(h, "ignition"@, 1);
    lemma_missing_char(h, "liftoff"@, 0);
    lemma_infix_at(h, "max-q"@, 0);
    lemma_missing_pair(h, "max q"@, 2);
    lemma_missing_char(h, "separation"@, 6);
    lemma_missing_char(h, "payload release"@, 3);
    lemma_missing_char(h, "orbital insertion"@, 0);
}

proof fn lemma_event_of_stage1_separation(t: FlawTrigger)
    ensures
        trigger_matches(t, stage_event_lower(LaunchStage::Stage1Separation)) <==> stage_trigger(LaunchStage::Stage1Separation) == Some(t),
{
    reveal_strlit("Stage 1 separation");
    reveal_strlit("stage 1 separation");
    reveal_strlit("ignition");
    reveal_strlit("liftoff");
    reveal_strlit("max-q");
    reveal_strlit("max q");
    reveal_strlit("separation");
    reveal_strlit("payload release");
    reveal_strlit("orbital insertion");
    let h = stage_event_lower(LaunchStage::Stage1Separation);
    assert(h =~= "stage 1 separation"@);
    lemma_missing_pair(h, "ignition"@, 0);
    lemma_missing_char(h, "liftoff"@, 0);
    lemma_missing_char(h, "max-q"@, 0);
    lemma_missing_char(h, "max q"@, 0);
    lemma_infix_at(h, "separation"@, 8);
    lemma_missing_char(h, "payload release"@, 2);
    lemma_missing_char(h, "orbital insertion"@, 2);
}

proof fn lemma_event_of_stage2_ignition(t: FlawTrigger)
    ensures
        trigger_matches(t, stage_event_lower(LaunchStage::Stage2Ignition)) <==> stage_trigger(LaunchStage::Stage2Ignition) == Some(t),
{
    reveal_strlit("Stage 2 ignition");
    reveal_strlit("stage 2 ignition");
    reveal_strlit("ignition");
    reveal_strlit("liftoff");
    reveal_strlit("max-q");
    reveal_strlit("max q");
    reveal_strlit("separation");
    reveal_strlit("payload release");
    reveal_strlit("orbital insertion");
    let h = stage_event_lower(LaunchStage::Stage2Ignition);
    assert(h =~= "stage 2 ignition"@);
    lemma_infix_at(h, "ignition"@, 8);
    lemma_missing_char(h, "liftoff"@, 0);
    lemma_missing_char(h, "max-q"@, 0);
    lemma_missing_char(h, "max q"@, 0);
    lemma_missing_char(h, "separation"@, 2);
    lemma_missing_char(h, "payload release"@, 0);
    lemma_missing_char(h, "orbital insertion"@, 1);
}

proof fn lemma_event_of_meco(t: FlawTrigger)
    ensures
        trigger_matches(t, stage_event_lower(LaunchStage::MECO)) <==> stage_trigger(LaunchStage::MECO) == Some(t),
{
    reveal_strlit("MECO (Main Engine Cutoff)");
    reveal_strlit("meco (main engine cutoff)");
    reveal_strlit("ignition");
    reveal_strlit("liftoff");
    reveal_strlit("max-q");
    reveal_strlit("max q");
    reveal_strlit("separation");
    reveal_strlit("payload release");
    reveal_strlit("orbital insertion");
    let h = stage_event_lower(LaunchStage::MECO);
    assert(h =~= "meco (main engine cutoff)"@);
    lemma_missing_pair(h, "ignition"@, 0);
    lemma_missing_char(h, "liftoff"@, 0);
    lemma_missing_char(h, "max-q"@, 2);
    lemma_missing_char(h, "max q"@, 2);
    lemma_missing_char(h, "separation"@, 0);
    lemma_missing_char(h, "payload release"@, 0);
    lemma_missing_char(h, "orbital insertion"@, 1);
}

proof fn lemma_event_of_orbit_insertion(t: FlawTrigger)
    ensures
        trigger_matches(t, stage_event_lower(LaunchStage::OrbitInsertion)) <==> stage_trigger(LaunchStage::OrbitInsertion) == Some(t),
{
    reveal_strlit("Orbital insertion");
    reveal_strlit("orbital insertion");
    reveal_strlit("ignition");
    reveal_strlit("liftoff");
    reveal_strlit("max-q");
    reveal_strlit("max q");
    reveal_strlit("separation");
    reveal_strlit("payload release");
    reveal_strlit("orbital insertion");
    let h = stage_event_lower(LaunchStage::OrbitInsertion);
    assert(h =~= "orbital insertion"@);
    lemma_missing_char(h, "ignition"@, 1);
    lemma_missing_char(h, "liftoff"@, 2);
    lemma_missing_char(h, "max-q"@, 0);
    lemma_missing_char(h, "max q"@, 0);
    lemma_missing_char(h, "separation"@, 2);
    lemma_missing_char(h, "payload release"@, 0);
    lemma_infix_at(h, "orbital insertion"@, 0);
}

/// Each launch stage's event sets off exactly the kind of flaw of that stage: a flaw
/// fires at a stage's event if and only if its trigger is the stage's.
pub proof fn lemma_launch_events_fire_their_trigger(s: LaunchStage, t: FlawTrigger)
    ensures
        trigger_matches(t, stage_event_lower(s)) <==> stage_trigger(s) == Some(t),
{
    match s {
        LaunchStage::Ignition => lemma_event_of_ignition(t),
        LaunchStage::Liftoff => lemma_event_of_liftoff(t),
        LaunchStage::MaxQ => lemma_event_of_max_q(t),
        LaunchStage::Stage1Separation => lemma_event_of_stage1_separation(t),
        LaunchStage::Stage2Ignition => lemma_event_of_stage2_ignition(t),
        LaunchStage::MECO => lemma_event_of_meco(t),
        LaunchStage::OrbitInsertion => lemma_event_of_orbit_insertion(t),
    }
}

/// No launch event sets off two kinds of flaw, and every kind of flaw is set off by some
/// launch event.
pub proof fn lemma_launch_events_one_kind_each(s: LaunchStage, t1: FlawTrigger, t2: FlawTrigger, t: FlawTrigger)
    ensures
        trigger_matches(t1, stage_event_lower(s)) && trigger_matches(t2, stage_event_lower(s)) ==> t1 == t2,
        exists|s2: LaunchStage| #[trigger] trigger_matches(t, stage_event_lower(s2)),
{
    lemma_launch_events_fire_their_trigger(s, t1);
    lemma_launch_events_fire_their_trigger(s, t2);
    let s2 = match t {
        FlawTrigger::Ignition => LaunchStage::Ignition,
        FlawTrigger::Liftoff => LaunchStage::Liftoff,
        FlawTrigger::MaxQ => LaunchStage::MaxQ,
        FlawTrigger::Separation => LaunchStage::Stage1Separation,
        FlawTrigger::PayloadRelease => LaunchStage::OrbitInsertion,
    };
    lemma_launch_events_fire_their_trigger(s2, t);
}

} // verus!
