use rocket_tycoon::engine_design::{
    components_for, cycle_complexity, default_cycle, is_cycle_compatible, valid_cycles_for_fuel,
    EngineComponent, EngineConfig, EngineCycle, FuelType,
};
use rocket_tycoon::design_phase::DesignPhase;

const ALL_FUELS: [FuelType; 5] = [
    FuelType::Kerolox,
    FuelType::Hydrolox,
    FuelType::Solid,
    FuelType::Methalox,
    FuelType::Hypergolic,
];

#[test]
fn test_fuel_type_index_roundtrip() {
    for i in 0..5 {
        let ft = FuelType::from_index(i).unwrap();
        assert_eq!(ft.index(), i);
    }
    assert!(FuelType::from_index(5).is_none());
}

#[test]
fn test_default_cycles() {
    assert_eq!(default_cycle(FuelType::Kerolox), EngineCycle::GasGenerator);
    assert_eq!(default_cycle(FuelType::Hydrolox), EngineCycle::Expander);
    assert_eq!(default_cycle(FuelType::Methalox), EngineCycle::GasGenerator);
    assert_eq!(default_cycle(FuelType::Hypergolic), EngineCycle::PressureFed);
    assert_eq!(default_cycle(FuelType::Solid), EngineCycle::PressureFed);
}

#[test]
fn test_cycle_compatibility_matrix() {
    for fuel in ALL_FUELS {
        assert!(is_cycle_compatible(fuel, EngineCycle::PressureFed), "PressureFed should work with {:?}", fuel);
    }

    assert!(is_cycle_compatible(FuelType::Kerolox, EngineCycle::GasGenerator));
    assert!(is_cycle_compatible(FuelType::Hydrolox, EngineCycle::GasGenerator));
    assert!(is_cycle_compatible(FuelType::Methalox, EngineCycle::GasGenerator));
    assert!(is_cycle_compatible(FuelType::Hypergolic, EngineCycle::GasGenerator));
    assert!(!is_cycle_compatible(FuelType::Solid, EngineCycle::GasGenerator));

    assert!(!is_cycle_compatible(FuelType::Kerolox, EngineCycle::Expander));
    assert!(is_cycle_compatible(FuelType::Hydrolox, EngineCycle::Expander));
    assert!(is_cycle_compatible(FuelType::Methalox, EngineCycle::Expander));
    assert!(!is_cycle_compatible(FuelType::Hypergolic, EngineCycle::Expander));
    assert!(!is_cycle_compatible(FuelType::Solid, EngineCycle::Expander));

    assert!(is_cycle_compatible(FuelType::Kerolox, EngineCycle::StagedCombustion));
    assert!(is_cycle_compatible(FuelType::Hydrolox, EngineCycle::StagedCombustion));
    assert!(is_cycle_compatible(FuelType::Methalox, EngineCycle::StagedCombustion));
    assert!(is_cycle_compatible(FuelType::Hypergolic, EngineCycle::StagedCombustion));
    assert!(!is_cycle_compatible(FuelType::Solid, EngineCycle::StagedCombustion));

    assert!(is_cycle_compatible(FuelType::Kerolox, EngineCycle::FullFlowStagedCombustion));
    assert!(is_cycle_compatible(FuelType::Hydrolox, EngineCycle::FullFlowStagedCombustion));
    assert!(is_cycle_compatible(FuelType::Methalox, EngineCycle::FullFlowStagedCombustion));
    assert!(!is_cycle_compatible(FuelType::Hypergolic, EngineCycle::FullFlowStagedCombustion));
    assert!(!is_cycle_compatible(FuelType::Solid, EngineCycle::FullFlowStagedCombustion));
}

#[test]
fn test_valid_cycles_for_fuel() {
    let kerolox_cycles = valid_cycles_for_fuel(FuelType::Kerolox);
    assert_eq!(kerolox_cycles.len(), 4);
    assert!(!kerolox_cycles.contains(&EngineCycle::Expander));

    let hydrolox_cycles = valid_cycles_for_fuel(FuelType::Hydrolox);
    assert_eq!(hydrolox_cycles.len(), 5);

    let solid_cycles = valid_cycles_for_fuel(FuelType::Solid);
    assert_eq!(solid_cycles.len(), 1);
    assert_eq!(solid_cycles[0], EngineCycle::PressureFed);

    let hypergolic_cycles = valid_cycles_for_fuel(FuelType::Hypergolic);
    assert_eq!(hypergolic_cycles.len(), 3);
}

#[test]
fn test_cycle_index_roundtrip() {
    for i in 0..5 {
        let cycle = EngineCycle::from_index(i).unwrap();
        assert_eq!(cycle.index(), i);
    }
    assert!(EngineCycle::from_index(5).is_none());
}

#[test]
fn test_cycle_complexity_values() {
    assert_eq!(cycle_complexity(FuelType::Kerolox, EngineCycle::PressureFed), Some(4));
    assert_eq!(cycle_complexity(FuelType::Kerolox, EngineCycle::GasGenerator), Some(6));
    assert_eq!(cycle_complexity(FuelType::Kerolox, EngineCycle::FullFlowStagedCombustion), Some(8));
    assert_eq!(cycle_complexity(FuelType::Hydrolox, EngineCycle::Expander), Some(7));
    assert_eq!(cycle_complexity(FuelType::Solid, EngineCycle::PressureFed), Some(3));
    assert_eq!(cycle_complexity(FuelType::Hypergolic, EngineCycle::PressureFed), Some(1));

    assert_eq!(cycle_complexity(FuelType::Kerolox, EngineCycle::Expander), None);
    assert_eq!(cycle_complexity(FuelType::Solid, EngineCycle::GasGenerator), None);
}

#[test]
fn test_components_for_pressure_fed_no_turbopump() {
    let comps = components_for(FuelType::Kerolox, EngineCycle::PressureFed);
    assert!(!comps.contains(&EngineComponent::Turbopump));
    assert!(comps.contains(&EngineComponent::Kerolox));

    let comps = components_for(FuelType::Kerolox, EngineCycle::GasGenerator);
    assert!(comps.contains(&EngineComponent::Turbopump));
}

#[test]
fn test_fuel_type_roundtrip() {
    assert_eq!(EngineConfig::for_fuel(FuelType::Kerolox).fuel_type(), FuelType::Kerolox);
    assert_eq!(EngineConfig::for_fuel(FuelType::Hydrolox).fuel_type(), FuelType::Hydrolox);
    assert_eq!(EngineConfig::for_fuel(FuelType::Solid).fuel_type(), FuelType::Solid);
}

#[test]
fn test_set_fuel_type() {
    let mut design = EngineConfig::for_fuel(FuelType::Kerolox);
    assert_eq!(design.cycle, EngineCycle::GasGenerator);
    design.set_fuel_type(FuelType::Hydrolox);
    assert_eq!(design.fuel_type(), FuelType::Hydrolox);
    assert_eq!(design.cycle, EngineCycle::GasGenerator);
    assert_eq!(design.complexity, 6);
}

#[test]
fn test_set_fuel_type_switches_incompatible_cycle() {
    let mut design = EngineConfig::for_fuel(FuelType::Kerolox);
    design.set_cycle(EngineCycle::FullFlowStagedCombustion);
    assert_eq!(design.cycle, EngineCycle::FullFlowStagedCombustion);

    design.set_fuel_type(FuelType::Hypergolic);
    assert_eq!(design.fuel_type(), FuelType::Hypergolic);
    assert_eq!(design.cycle, EngineCycle::PressureFed);
    assert_eq!(design.complexity, 1);
}

#[test]
fn test_default_complexity_from_cycle() {
    let kerolox = EngineConfig::for_fuel(FuelType::Kerolox);
    assert_eq!(kerolox.complexity, 6);
    assert_eq!(kerolox.cycle, EngineCycle::GasGenerator);

    let hydrolox = EngineConfig::for_fuel(FuelType::Hydrolox);
    assert_eq!(hydrolox.complexity, 7);
    assert_eq!(hydrolox.cycle, EngineCycle::Expander);

    let solid = EngineConfig::for_fuel(FuelType::Solid);
    assert_eq!(solid.complexity, 3);
    assert_eq!(solid.cycle, EngineCycle::PressureFed);
}

#[test]
fn test_create_engine_complexity_from_cycle() {
    let e = EngineConfig::for_fuel(FuelType::Kerolox);
    assert_eq!(e.complexity, 6);
    assert_eq!(e.cycle, EngineCycle::GasGenerator);

    let e = EngineConfig::for_fuel(FuelType::Hydrolox);
    assert_eq!(e.complexity, 7);
    assert_eq!(e.cycle, EngineCycle::Expander);

    let e = EngineConfig::for_fuel(FuelType::Solid);
    assert_eq!(e.complexity, 3);
    assert_eq!(e.cycle, EngineCycle::PressureFed);

    let e = EngineConfig::for_fuel(FuelType::Methalox);
    assert_eq!(e.complexity, 6);
    assert_eq!(e.cycle, EngineCycle::GasGenerator);

    let e = EngineConfig::for_fuel(FuelType::Hypergolic);
    assert_eq!(e.complexity, 1);
    assert_eq!(e.cycle, EngineCycle::PressureFed);
}

#[test]
fn test_set_cycle() {
    let mut design = EngineConfig::for_fuel(FuelType::Kerolox);
    assert!(design.set_cycle(EngineCycle::StagedCombustion));
    assert_eq!(design.cycle, EngineCycle::StagedCombustion);
    assert_eq!(design.complexity, 7);

    assert!(design.set_cycle(EngineCycle::FullFlowStagedCombustion));
    assert_eq!(design.complexity, 8);

    assert!(design.set_cycle(EngineCycle::PressureFed));
    assert_eq!(design.complexity, 4);
}

#[test]
fn test_set_cycle_incompatible() {
    let mut design = EngineConfig::for_fuel(FuelType::Kerolox);
    assert!(!design.set_cycle(EngineCycle::Expander));
    assert_eq!(design.cycle, EngineCycle::GasGenerator);
}

#[test]
fn test_every_default_engine_is_consistent() {
    for fuel in ALL_FUELS {
        let c = default_cycle(fuel);
        assert!(is_cycle_compatible(fuel, c));
        let e = EngineConfig::for_fuel(fuel);
        assert_eq!(e.fuel_type(), fuel);
        assert_eq!(Some(e.complexity), cycle_complexity(fuel, e.cycle));
        assert_eq!(e.components, components_for(fuel, c));
    }
}

#[test]
fn test_components_roundtrip_to_fuel() {
    for fuel in ALL_FUELS {
        for cycle in valid_cycles_for_fuel(fuel) {
            let e = EngineConfig {
                components: components_for(fuel, cycle),
                complexity: 0,
                cycle,
                phase: DesignPhase::Specification,
            };
            assert_eq!(e.fuel_type(), fuel);
        }
    }
}

#[test]
fn test_valid_cycles_in_index_order() {
    let hydrolox = valid_cycles_for_fuel(FuelType::Hydrolox);
    let indices: Vec<usize> = hydrolox.iter().map(|c| c.index()).collect();
    assert_eq!(indices, vec![0, 1, 2, 3, 4]);
    let hyper = valid_cycles_for_fuel(FuelType::Hypergolic);
    assert_eq!(hyper, vec![EngineCycle::PressureFed, EngineCycle::GasGenerator, EngineCycle::StagedCombustion]);
}

#[test]
fn test_display_names() {
    assert_eq!(FuelType::Methalox.display_name(), "Methalox");
    assert_eq!(EngineCycle::FullFlowStagedCombustion.display_name(), "Full-Flow Staged");
    assert_eq!(EngineCycle::PressureFed.display_name(), "Pressure-Fed");
    assert!(!EngineCycle::PressureFed.has_turbopump());
    assert!(EngineCycle::Expander.has_turbopump());
}

#[test]
fn test_solid_components_never_have_turbopump() {
    assert_eq!(components_for(FuelType::Solid, EngineCycle::GasGenerator), vec![EngineComponent::SolidMotor]);
    assert_eq!(
        components_for(FuelType::Hypergolic, EngineCycle::StagedCombustion),
        vec![EngineComponent::Hypergolic, EngineComponent::Turbopump]
    );
}

#[test]
fn test_set_fuel_type_refused_outside_specification() {
    let mut design = EngineConfig::for_fuel(FuelType::Kerolox);
    assert!(design.can_modify());
    design.phase = DesignPhase::Engineering;
    assert!(!design.can_modify());
    assert!(!design.set_fuel_type(FuelType::Hydrolox));
    assert_eq!(design.fuel_type(), FuelType::Kerolox);
    assert_eq!(design.cycle, EngineCycle::GasGenerator);
    assert_eq!(design.complexity, 6);
    assert_eq!(design.phase, DesignPhase::Engineering);
}

#[test]
fn test_set_cycle_refused_outside_specification() {
    let mut design = EngineConfig::for_fuel(FuelType::Kerolox);
    design.phase = DesignPhase::Complete;
    assert!(!design.set_cycle(EngineCycle::StagedCombustion));
    assert_eq!(design.cycle, EngineCycle::GasGenerator);
    assert_eq!(design.complexity, 6);
    design.phase = DesignPhase::Specification;
    assert!(design.set_cycle(EngineCycle::StagedCombustion));
    assert_eq!(design.cycle, EngineCycle::StagedCombustion);
}

#[test]
fn test_set_fuel_type_reports_success() {
    let mut design = EngineConfig::for_fuel(FuelType::Kerolox);
    assert!(design.set_fuel_type(FuelType::Methalox));
    assert_eq!(design.fuel_type(), FuelType::Methalox);
}
