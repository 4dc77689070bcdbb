//! Chemical engine fuels, pump cycles and the components they imply.

use vstd::prelude::*;

use crate::design_phase::DesignPhase;

verus! {

/// Chemical engine fuel types.
#[derive(Debug, Clone, Copy, PartialEq, Eq, Structural, Hash, PartialOrd, Ord)]
pub enum FuelType {
    Kerolox,
    Hydrolox,
    Solid,
    Methalox,
    Hypergolic,
}

/// Number of fuel types.
pub const FUEL_TYPE_COUNT: usize = 5;

/// Position of a fuel type in the fuel list.
pub open spec fn fuel_index(f: FuelType) -> int {
    match f {
        FuelType::Kerolox => 0,
        FuelType::Hydrolox => 1,
        FuelType::Solid => 2,
        FuelType::Methalox => 3,
        FuelType::Hypergolic => 4,
    }
}

/// The fuel type at position `i` of the fuel list, if any.
pub open spec fn fuel_at(i: int) -> Option<FuelType> {
    if i == 0 {
        Some(FuelType::Kerolox)
    } else if i == 1 {
        Some(FuelType::Hydrolox)
    } else if i == 2 {
        Some(FuelType::Solid)
    } else if i == 3 {
        Some(FuelType::Methalox)
    } else if i == 4 {
        Some(FuelType::Hypergolic)
    } else {
        None
    }
}

/// Display name of a fuel type.
pub open spec fn fuel_display_name(f: FuelType) -> Seq<char> {
    match f {
        FuelType::Kerolox => "Kerolox"@,
        FuelType::Hydrolox => "Hydrolox"@,
        FuelType::Solid => "Solid"@,
        FuelType::Methalox => "Methalox"@,
        FuelType::Hypergolic => "Hypergolic"@,
    }
}

impl FuelType {
    pub fn display_name(&self) -> (s: &'static str)
        ensures
            s@ == fuel_display_name(*self),
    {
        match self {
            FuelType::Kerolox => "Kerolox",
            FuelType::Hydrolox => "Hydrolox",
            FuelType::Solid => "Solid",
            FuelType::Methalox => "Methalox",
            FuelType::Hypergolic => "Hypergolic",
        }
    }

    pub fn from_index(i: usize) -> (f: Option<FuelType>)
        ensures
            f == fuel_at(i as int),
    {
        match i {
            0 => Some(FuelType::Kerolox),
            1 => Some(FuelType::Hydrolox),
            2 => Some(FuelType::Solid),
            3 => Some(FuelType::Methalox),
            4 => Some(FuelType::Hypergolic),
            _ => None,
        }
    }

    pub fn index(&self) -> (i: usize)
        ensures
            i == fuel_index(*self),
    {
        match self {
            FuelType::Kerolox => 0,
            FuelType::Hydrolox => 1,
            FuelType::Solid => 2,
            FuelType::Methalox => 3,
            FuelType::Hypergolic => 4,
        }
    }
}

/// Engine cycle (pump type): how propellants are fed to the combustion chamber.
/// Higher-performance cycles are more complex and expensive.
#[derive(Debug, Clone, Copy, PartialEq, Eq, Structural)]
pub enum EngineCycle {
    PressureFed,
    GasGenerator,
    Expander,
    StagedCombustion,
    FullFlowStagedCombustion,
}

/// Number of engine cycles.
pub const ENGINE_CYCLE_COUNT: usize = 5;

/// Position of a cycle in the cycle list.
pub open spec fn cycle_index(c: EngineCycle) -> int {
    match c {
        EngineCycle::PressureFed => 0,
        EngineCycle::GasGenerator => 1,
        EngineCycle::Expander => 2,
        EngineCycle::StagedCombustion => 3,
        EngineCycle::FullFlowStagedCombustion => 4,
    }
}

/// The cycle at position `i` of the cycle list, if any.
pub open spec fn cycle_at(i: int) -> Option<EngineCycle> {
    if i == 0 {
        Some(EngineCycle::PressureFed)
    } else if i == 1 {
        Some(EngineCycle::GasGenerator)
    } else if i == 2 {
        Some(EngineCycle::Expander)
    } else if i == 3 {
        Some(EngineCycle::StagedCombustion)
    } else if i == 4 {
        Some(EngineCycle::FullFlowStagedCombustion)
    } else {
        None
    }
}

/// Display name of a cycle.
pub open spec fn cycle_display_name(c: EngineCycle) -> Seq<char> {
    match c {
        EngineCycle::PressureFed => "Pressure-Fed"@,
        EngineCycle::GasGenerator => "Gas Generator"@,
        EngineCycle::Expander => "Expander"@,
        EngineCycle::StagedCombustion => "Staged Combustion"@,
        EngineCycle::FullFlowStagedCombustion => "Full-Flow Staged"@,
    }
}

/// Every cycle but pressure-fed drives its propellants with a turbopump.
pub open spec fn cycle_has_turbopump(c: EngineCycle) -> bool {
    c != EngineCycle::PressureFed
}

impl EngineCycle {
    pub fn from_index(i: usize) -> (c: Option<EngineCycle>)
        ensures
            c == cycle_at(i as int),
    {
        match i {
            0 => Some(EngineCycle::PressureFed),
            1 => Some(EngineCycle::GasGenerator),
            2 => Some(EngineCycle::Expander),
            3 => Some(EngineCycle::StagedCombustion),
            4 => Some(EngineCycle::FullFlowStagedCombustion),
            _ => None,
        }
    }

    pub fn index(&self) -> (i: usize)
        ensures
            i == cycle_index(*self),
    {
        match self {
            EngineCycle::PressureFed => 0,
            EngineCycle::GasGenerator => 1,
            EngineCycle::Expander => 2,
            EngineCycle::StagedCombustion => 3,
            EngineCycle::FullFlowStagedCombustion => 4,
        }
    }

    pub fn display_name(&self) -> (s: &'static str)
        ensures
            s@ == cycle_display_name(*self),
    {
        match self {
            EngineCycle::PressureFed => "Pressure-Fed",
            EngineCycle::GasGenerator => "Gas Generator",
            EngineCycle::Expander => "Expander",
            EngineCycle::StagedCombustion => "Staged Combustion",
            EngineCycle::FullFlowStagedCombustion => "Full-Flow Staged",
        }
    }

    /// Whether this cycle uses a turbopump (all except pressure-fed).
    pub fn has_turbopump(&self) -> (b: bool)
        ensures
            b == cycle_has_turbopump(*self),
    {
        match self {
            EngineCycle::PressureFed => false,
            _ => true,
        }
    }
}

/// Which (fuel, cycle) pairs can be built: pressure-fed takes every fuel; gas-generator
/// and staged combustion every liquid fuel; the expander only hydrolox and methalox;
/// full-flow staged combustion kerolox, hydrolox and methalox.
pub open spec fn spec_cycle_compatible(fuel: FuelType, cycle: EngineCycle) -> bool {
    match cycle {
        EngineCycle::PressureFed => true,
        EngineCycle::GasGenerator => fuel != FuelType::Solid,
        EngineCycle::Expander => fuel == FuelType::Hydrolox || fuel == FuelType::Methalox,
        EngineCycle::StagedCombustion => fuel != FuelType::Solid,
        EngineCycle::FullFlowStagedCombustion => fuel == FuelType::Kerolox || fuel
            == FuelType::Hydrolox || fuel == FuelType::Methalox,
    }
}

/// Complexity of a compatible (fuel, cycle) pair.
pub open spec fn complexity_table(fuel: FuelType, cycle: EngineCycle) -> int {
    match fuel {
        FuelType::Kerolox => match cycle {
            EngineCycle::PressureFed => 4,
            EngineCycle::GasGenerator => 6,
            EngineCycle::StagedCombustion => 7,
            _ => 8,
        },
        FuelType::Hydrolox | FuelType::Methalox => match cycle {
            EngineCycle::PressureFed => 5,
            EngineCycle::GasGenerator => 6,
            EngineCycle::Expander => 7,
            EngineCycle::StagedCombustion => 8,
            EngineCycle::FullFlowStagedCombustion => 9,
        },
        FuelType::Hypergolic => match cycle {
            EngineCycle::PressureFed => 1,
            EngineCycle::GasGenerator => 2,
            _ => 4,
        },
        FuelType::Solid => 3,
    }
}

/// Complexity of a (fuel, cycle) pair, `None` when the pair cannot be built.
pub open spec fn spec_cycle_complexity(fuel: FuelType, cycle: EngineCycle) -> Option<i32> {
    if spec_cycle_compatible(fuel, cycle) {
        Some(complexity_table(fuel, cycle) as i32)
    } else {
        None
    }
}

/// Default cycle of each fuel.
pub open spec fn spec_default_cycle(fuel: FuelType) -> EngineCycle {
    match fuel {
        FuelType::Kerolox => EngineCycle::GasGenerator,
        FuelType::Hydrolox => EngineCycle::Expander,
        FuelType::Methalox => EngineCycle::GasGenerator,
        FuelType::Hypergolic => EngineCycle::PressureFed,
        FuelType::Solid => EngineCycle::PressureFed,
    }
}

/// Check if a (fuel, cycle) combination is valid.
pub fn is_cycle_compatible(fuel: FuelType, cycle: EngineCycle) -> (b: bool)
    ensures
        b == spec_cycle_compatible(fuel, cycle),
{
    match (fuel, cycle) {
        (_, EngineCycle::PressureFed) => true,
        (FuelType::Kerolox, EngineCycle::GasGenerator) => true,
        (FuelType::Hydrolox, EngineCycle::GasGenerator) => true,
        (FuelType::Methalox, EngineCycle::GasGenerator) => true,
        (FuelType::Hypergolic, EngineCycle::GasGenerator) => true,
        (FuelType::Hydrolox, EngineCycle::Expander) => true,
        (FuelType::Methalox, EngineCycle::Expander) => true,
        (FuelType::Kerolox, EngineCycle::StagedCombustion) => true,
        (FuelType::Hydrolox, EngineCycle::StagedCombustion) => true,
        (FuelType::Methalox, EngineCycle::StagedCombustion) => true,
        (FuelType::Hypergolic, EngineCycle::StagedCombustion) => true,
        (FuelType::Kerolox, EngineCycle::FullFlowStagedCombustion) => true,
        (FuelType::Hydrolox, EngineCycle::FullFlowStagedCombustion) => true,
        (FuelType::Methalox, EngineCycle::FullFlowStagedCombustion) => true,
        _ => false,
    }
}

/// The complexity value of a (fuel, cycle) combination; `None` for invalid combinations.
pub fn cycle_complexity(fuel: FuelType, cycle: EngineCycle) -> (c: Option<i32>)
    ensures
        c == spec_cycle_complexity(fuel, cycle),
{
    if !is_cycle_compatible(fuel, cycle) {
        return None;
    }
    Some(
        match (fuel, cycle) {
            (FuelType::Kerolox, EngineCycle::PressureFed) => 4,
            (FuelType::Kerolox, EngineCycle::GasGenerator) => 6,
            (FuelType::Kerolox, EngineCycle::StagedCombustion) => 7,
            (FuelType::Kerolox, _) => 8,
            (FuelType::Hydrolox, EngineCycle::PressureFed) => 5,
            (FuelType::Hydrolox, EngineCycle::GasGenerator) => 6,
            (FuelType::Hydrolox, EngineCycle::Expander) => 7,
            (FuelType::Hydrolox, EngineCycle::StagedCombustion) => 8,
            (FuelType::Hydrolox, EngineCycle::FullFlowStagedCombustion) => 9,
            (FuelType::Methalox, EngineCycle::PressureFed) => 5,
            (FuelType::Methalox, EngineCycle::GasGenerator) => 6,
            (FuelType::Methalox, EngineCycle::Expander) => 7,
            (FuelType::Methalox, EngineCycle::StagedCombustion) => 8,
            (FuelType::Methalox, EngineCycle::FullFlowStagedCombustion) => 9,
            (FuelType::Hypergolic, EngineCycle::PressureFed) => 1,
            (FuelType::Hypergolic, EngineCycle::GasGenerator) => 2,
            (FuelType::Hypergolic, _) => 4,
            (FuelType::Solid, _) => 3,
        },
    )
}

/// The default cycle for a fuel type.
pub fn default_cycle(fuel: FuelType) -> (c: EngineCycle)
    ensures
        c == spec_default_cycle(fuel),
{
    match fuel {
        FuelType::Kerolox => EngineCycle::GasGenerator,
        FuelType::Hydrolox => EngineCycle::Expander,
        FuelType::Methalox => EngineCycle::GasGenerator,
        FuelType::Hypergolic => EngineCycle::PressureFed,
        FuelType::Solid => EngineCycle::PressureFed,
    }
}

/// The cycles that can be built with `fuel`, each once, in index order.
pub fn valid_cycles_for_fuel(fuel: FuelType) -> (v: Vec<EngineCycle>)
    ensures
        forall|c: EngineCycle| v@.contains(c) <==> spec_cycle_compatible(fuel, c),
        forall|i: int, j: int|
            0 <= i < j < v@.len() ==> cycle_index(#[trigger] v@[i]) < cycle_index(#[trigger] v@[j]),
{
    let mut v: Vec<EngineCycle> = Vec::new();
    let mut i: usize = 0;
    while i < ENGINE_CYCLE_COUNT
        invariant
            i <= ENGINE_CYCLE_COUNT,
            forall|c: EngineCycle|
                v@.contains(c) <==> (spec_cycle_compatible(fuel, c) && cycle_index(c) < i),
            forall|a: int, b: int|
                0 <= a < b < v@.len() ==> cycle_index(#[trigger] v@[a]) < cycle_index(
                    #[trigger] v@[b],
                ),
            forall|a: int| 0 <= a < v@.len() ==> cycle_index(#[trigger] v@[a]) < i,
        decreases ENGINE_CYCLE_COUNT - i,
    {
        let c = match EngineCycle::from_index(i) {
            Some(c) => c,
            None => EngineCycle::PressureFed,
        };
        assert(cycle_index(c) == i);
        let ghost old_v = v@;
        if is_cycle_compatible(fuel, c) {
            v.push(c);
            assert forall|d: EngineCycle|
                v@.contains(d) <==> (spec_cycle_compatible(fuel, d) && cycle_index(d) < i
                    + 1) by {
                if v@.contains(d) {
                    let k = choose|k: int| 0 <= k < v@.len() && v@[k] == d;
                    if k < old_v.len() {
                        assert(old_v.contains(d));
                    }
                }
                if spec_cycle_compatible(fuel, d) && cycle_index(d) < i + 1 {
                    if cycle_index(d) < i {
                        let k = choose|k: int| 0 <= k < old_v.len() && old_v[k] == d;
                        assert(v@[k] == d);
                    } else {
                        assert(v@[old_v.len() as int] == d);
                    }
                }
            }
        } else {
            assert forall|d: EngineCycle|
                v@.contains(d) <==> (spec_cycle_compatible(fuel, d) && cycle_index(d) < i
                    + 1) by {
                if spec_cycle_compatible(fuel, d) && cycle_index(d) < i + 1 {
                    assert(cycle_index(d) != i);
                }
            }
        }
        i = i + 1;
    }
    v
}

/// Components that make up an engine design.
/// Propellant chemistry sets base performance; a turbopump is needed by turbopump-fed cycles.
#[derive(Debug, Clone, Copy, PartialEq, Eq, Structural, Hash)]
pub enum EngineComponent {
    /// RP-1/LOX propellant
    Kerolox,
    /// LH2/LOX propellant
    Hydrolox,
    /// HTPB/AP solid propellant
    SolidMotor,
    /// Required for turbopump-fed liquid engines
    Turbopump,
    /// CH4/LOX propellant
    Methalox,
    /// NTO/UDMH storable propellant
    Hypergolic,
}

/// The propellant component of a fuel.
pub open spec fn propellant_component(fuel: FuelType) -> EngineComponent {
    match fuel {
        FuelType::Kerolox => EngineComponent::Kerolox,
        FuelType::Hydrolox => EngineComponent::Hydrolox,
        FuelType::Solid => EngineComponent::SolidMotor,
        FuelType::Methalox => EngineComponent::Methalox,
        FuelType::Hypergolic => EngineComponent::Hypergolic,
    }
}

/// Components of a (fuel, cycle) engine: the propellant component, followed by a turbopump
/// for liquid engines whose cycle has one.
pub open spec fn spec_components_for(fuel: FuelType, cycle: EngineCycle) -> Seq<EngineComponent> {
    if fuel != FuelType::Solid && cycle_has_turbopump(cycle) {
        seq![propellant_component(fuel), EngineComponent::Turbopump]
    } else {
        seq![propellant_component(fuel)]
    }
}

/// The engine components for a (fuel, cycle) combination.
pub fn components_for(fuel: FuelType, cycle: EngineCycle) -> (v: Vec<EngineComponent>)
    ensures
        v@ == spec_components_for(fuel, cycle),
{
    match fuel {
        FuelType::Solid => vec![EngineComponent::SolidMotor],
        FuelType::Kerolox => {
            if cycle.has_turbopump() {
                vec![EngineComponent::Kerolox, EngineComponent::Turbopump]
            } else {
                vec![EngineComponent::Kerolox]
            }
        },
        FuelType::Hydrolox => {
            if cycle.has_turbopump() {
                vec![EngineComponent::Hydrolox, EngineComponent::Turbopump]
            } else {
                vec![EngineComponent::Hydrolox]
            }
        },
        FuelType::Methalox => {
            if cycle.has_turbopump() {
                vec![EngineComponent::Methalox, EngineComponent::Turbopump]
            } else {
                vec![EngineComponent::Methalox]
            }
        },
        FuelType::Hypergolic => {
            if cycle.has_turbopump() {
                vec![EngineComponent::Hypergolic, EngineComponent::Turbopump]
            } else {
                vec![EngineComponent::Hypergolic]
            }
        },
    }
}

/// The fuel a component list stands for: a solid motor, else methalox, else hypergolic,
/// else hydrolox, else kerolox (first match in that order).
pub open spec fn fuel_of_components(components: Seq<EngineComponent>) -> FuelType {
    if components.contains(EngineComponent::SolidMotor) {
        FuelType::Solid
    } else if components.contains(EngineComponent::Methalox) {
        FuelType::Methalox
    } else if components.contains(EngineComponent::Hypergolic) {
        FuelType::Hypergolic
    } else if components.contains(EngineComponent::Hydrolox) {
        FuelType::Hydrolox
    } else {
        FuelType::Kerolox
    }
}

fn has_component(components: &Vec<EngineComponent>, wanted: EngineComponent) -> (b: bool)
    ensures
        b == components@.contains(wanted),
{
    let mut i: usize = 0;
    while i < components.len()
        invariant
            i <= components@.len(),
            forall|j: int| 0 <= j < i ==> components@[j] != wanted,
        decreases components@.len() - i,
    {
        if components[i] == wanted {
            return true;
        }
        i = i + 1;
    }
    false
}

/// The part of an engine design that fuel and cycle choices change: its components,
/// its cycle and the complexity derived from both, with the workflow phase that decides
/// whether they may still be changed.
#[derive(Debug, Clone)]
pub struct EngineConfig {
    pub components: Vec<EngineComponent>,
    /// Complexity level derived from fuel type and cycle.
    pub complexity: i32,
    /// Engine cycle (pump type).
    pub cycle: EngineCycle,
    /// Where the design stands in its workflow; edits are allowed only while specifying.
    pub phase: DesignPhase,
}

impl EngineConfig {
    /// Components, cycle and complexity agree with one buildable (fuel, cycle) pair.
    pub open spec fn is_consistent(&self) -> bool {
        let fuel = fuel_of_components(self.components@);
        &&& spec_cycle_compatible(fuel, self.cycle)
        &&& self.components@ == spec_components_for(fuel, self.cycle)
        &&& self.complexity == complexity_table(fuel, self.cycle)
    }

    /// The configuration of a new engine of the given fuel: its default cycle, still
    /// being specified.
    pub fn for_fuel(fuel: FuelType) -> (e: EngineConfig)
        ensures
            e.phase == DesignPhase::Specification,
            e.cycle == spec_default_cycle(fuel),
            e.components@ == spec_components_for(fuel, spec_default_cycle(fuel)),
            e.complexity == complexity_table(fuel, spec_default_cycle(fuel)),
            fuel_of_components(e.components@) == fuel,
            e.is_consistent(),
    {
        let cycle = default_cycle(fuel);
        let complexity = match cycle_complexity(fuel, cycle) {
            Some(c) => c,
            None => 0,
        };
        proof {
            lemma_fuel_of_components_for(fuel, cycle);
        }
        EngineConfig {
            components: components_for(fuel, cycle),
            complexity,
            cycle,
            phase: DesignPhase::Specification,
        }
    }

    /// Whether the design may be changed (only while it is being specified).
    pub fn can_modify(&self) -> (b: bool)
        ensures
            b == (self.phase == DesignPhase::Specification),
    {
        self.phase.can_edit()
    }

    /// The fuel type the current components stand for.
    pub fn fuel_type(&self) -> (f: FuelType)
        ensures
            f == fuel_of_components(self.components@),
    {
        if has_component(&self.components, EngineComponent::SolidMotor) {
            FuelType::Solid
        } else if has_component(&self.components, EngineComponent::Methalox) {
            FuelType::Methalox
        } else if has_component(&self.components, EngineComponent::Hypergolic) {
            FuelType::Hypergolic
        } else if has_component(&self.components, EngineComponent::Hydrolox) {
            FuelType::Hydrolox
        } else {
            FuelType::Kerolox
        }
    }

    /// Switch to `fuel`: keep the cycle when the new fuel supports it, otherwise take
    /// the fuel's default cycle; components and complexity follow (fuel, cycle). Refused
    /// (false, nothing changed) once the design has left its specification phase.
    pub fn set_fuel_type(&mut self, fuel: FuelType) -> (ok: bool)
        ensures
            ok == (old(self).phase == DesignPhase::Specification),
            ok ==> final(self).cycle == (if spec_cycle_compatible(fuel, old(self).cycle) {
                old(self).cycle
            } else {
                spec_default_cycle(fuel)
            }),
            ok ==> final(self).components@ == spec_components_for(fuel, final(self).cycle),
            ok ==> final(self).complexity == complexity_table(fuel, final(self).cycle),
            ok ==> fuel_of_components(final(self).components@) == fuel,
            ok ==> final(self).is_consistent(),
            final(self).phase == old(self).phase,
            !ok ==> *final(self) == *old(self),
    {
        if !self.can_modify() {
            return false;
        }
        let new_cycle = if is_cycle_compatible(fuel, self.cycle) {
            self.cycle
        } else {
            default_cycle(fuel)
        };
        self.cycle = new_cycle;
        self.components = components_for(fuel, new_cycle);
        self.complexity = match cycle_complexity(fuel, new_cycle) {
            Some(c) => c,
            None => self.complexity,
        };
        proof {
            lemma_fuel_of_components_for(fuel, new_cycle);
        }
        true
    }

    /// Set the engine cycle; refused (false, nothing changed) once the design has left
    /// its specification phase, or when the current fuel cannot use the cycle.
    pub fn set_cycle(&mut self, cycle: EngineCycle) -> (ok: bool)
        ensures
            ok == (old(self).phase == DesignPhase::Specification && spec_cycle_compatible(
                fuel_of_components(old(self).components@),
                cycle,
            )),
            ok ==> final(self).cycle == cycle && final(self).components@ == spec_components_for(
                fuel_of_components(old(self).components@),
                cycle,
            ) && final(self).complexity == complexity_table(
                fuel_of_components(old(self).components@),
                cycle,
            ),
            ok ==> fuel_of_components(final(self).components@) == fuel_of_components(
                old(self).components@,
            ),
            ok ==> final(self).is_consistent(),
            final(self).phase == old(self).phase,
            !ok ==> *final(self) == *old(self),
    {
        if !self.can_modify() {
            return false;
        }
        let fuel = self.fuel_type();
        if !is_cycle_compatible(fuel, cycle) {
            return false;
        }
        self.cycle = cycle;
        self.components = components_for(fuel, cycle);
        self.complexity = match cycle_complexity(fuel, cycle) {
            Some(c) => c,
            None => self.complexity,
        };
        proof {
            lemma_fuel_of_components_for(fuel, cycle);
        }
        true
    }
}

/// The components of a (fuel, cycle) engine stand for that fuel again.
pub proof fn lemma_fuel_of_components_for(fuel: FuelType, cycle: EngineCycle)
    ensures
        fuel_of_components(spec_components_for(fuel, cycle)) == fuel,
{
    let s = spec_components_for(fuel, cycle);
    assert(s[0] == propellant_component(fuel));
    assert(s.contains(propellant_component(fuel)));
    assert forall|c: EngineComponent| #[trigger] s.contains(c) implies c == propellant_component(
        fuel,
    ) || c == EngineComponent::Turbopump by {
        let k = choose|k: int| 0 <= k < s.len() && s[k] == c;
    }
}

/// Fuel and cycle indices round-trip through `from_index`, over exactly 0..5.
pub proof fn lemma_fuel_and_cycle_index_roundtrip(f: FuelType, c: EngineCycle, i: int)
    ensures
        fuel_at(fuel_index(f)) == Some(f),
        cycle_at(cycle_index(c)) == Some(c),
        0 <= i < FUEL_TYPE_COUNT ==> fuel_index(fuel_at(i).unwrap()) == i,
        0 <= i < ENGINE_CYCLE_COUNT ==> cycle_index(cycle_at(i).unwrap()) == i,
        fuel_at(i) is Some <==> 0 <= i < FUEL_TYPE_COUNT,
        cycle_at(i) is Some <==> 0 <= i < ENGINE_CYCLE_COUNT,
{
}

/// Every fuel can be built with its default cycle and with pressure feeding; a buildable
/// pair has a complexity from 1 to 9, and a turbopump exactly when it is a liquid engine
/// on a turbopump cycle.
pub proof fn lemma_cycle_table_facts(fuel: FuelType, cycle: EngineCycle)
    ensures
        spec_cycle_compatible(fuel, spec_default_cycle(fuel)),
        spec_cycle_compatible(fuel, EngineCycle::PressureFed),
        spec_cycle_complexity(fuel, cycle) is Some <==> spec_cycle_compatible(fuel, cycle),
        spec_cycle_compatible(fuel, cycle) ==> 1 <= complexity_table(fuel, cycle) <= 9,
        spec_components_for(fuel, cycle).contains(EngineComponent::Turbopump) <==> (fuel
            != FuelType::Solid && cycle_has_turbopump(cycle)),
        fuel == FuelType::Solid ==> (spec_cycle_compatible(fuel, cycle) <==> cycle
            == EngineCycle::PressureFed),
{
    let s = spec_components_for(fuel, cycle);
    if fuel != FuelType::Solid && cycle_has_turbopump(cycle) {
        assert(s[1] == EngineComponent::Turbopump);
    } else {
        assert(s.len() == 1);
        if s.contains(EngineComponent::Turbopump) {
            let k = choose|k: int| 0 <= k < s.len() && s[k] == EngineComponent::Turbopump;
        }
    }
}

} // verus!
