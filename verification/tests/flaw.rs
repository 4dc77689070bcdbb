use rocket_tycoon::flaw::{
    design_flaw_templates, flaw_applies_to_stage, liquid_engine_flaw_templates, pick_distinct_indices, shuffle_prefix,
    solid_motor_flaw_templates, FlawCategory, FlawGenerator, FlawTrigger, FlawType, TestingLevel,
};

#[test]
fn test_testing_level_names() {
    assert_eq!(TestingLevel::Untested.name(), "Untested");
    assert_eq!(TestingLevel::LightlyTested.name(), "Lightly Tested");
    assert_eq!(TestingLevel::ModeratelyTested.name(), "Moderately Tested");
    assert_eq!(TestingLevel::WellTested.name(), "Well Tested");
    assert_eq!(TestingLevel::ThoroughlyTested.name(), "Thoroughly Tested");
}

#[test]
fn test_testing_level_index_roundtrip() {
    for i in 0..=4 {
        let level = TestingLevel::from_index(i);
        assert_eq!(level.to_index(), i);
    }
}

#[test]
fn test_testing_level_clamps() {
    assert_eq!(TestingLevel::from_index(-3), TestingLevel::Untested);
    assert_eq!(TestingLevel::from_index(17), TestingLevel::ThoroughlyTested);
}

#[test]
fn test_trigger_matches_events() {
    assert!(FlawTrigger::Ignition.matches_event("Stage 1 Ignition"));
    assert!(!FlawTrigger::Ignition.matches_event("Liftoff"));
    assert!(FlawTrigger::MaxQ.matches_event("Max-Q"));
    assert!(FlawTrigger::MaxQ.matches_event("MAX Q"));
    assert!(!FlawTrigger::MaxQ.matches_event("Stage 1 Ignition"));
    assert!(FlawTrigger::Separation.matches_event("Booster SEPARATION"));
    assert!(FlawTrigger::PayloadRelease.matches_event("Orbital Insertion"));
    assert!(FlawTrigger::PayloadRelease.matches_event("payload release"));
    assert!(FlawTrigger::Liftoff.matches_event("LIFTOFF!"));
    assert!(!FlawTrigger::Liftoff.matches_event("lift off"));
}

#[test]
fn test_trigger_lowercase_only_variant() {
    assert!(FlawTrigger::Ignition.matches_lowercase_event("stage 2 ignition"));
    assert!(!FlawTrigger::Ignition.matches_lowercase_event("Stage 2 IGNITION"));
}

#[test]
fn test_trigger_index_roundtrip() {
    for i in 0..5 {
        assert_eq!(FlawTrigger::from_index(i).unwrap().to_index(), i);
    }
    assert!(FlawTrigger::from_index(5).is_none());
    assert!(FlawTrigger::from_index(-1).is_none());
}

#[test]
fn test_template_lists() {
    assert_eq!(liquid_engine_flaw_templates().len(), 7);
    assert_eq!(solid_motor_flaw_templates().len(), 5);
    let design = design_flaw_templates();
    assert_eq!(design.len(), 10);
    assert!(design.iter().all(|t| t.flaw_type == FlawType::Design));
    assert_eq!(design[0].name, "Structural Resonance");
    assert_eq!(FlawGenerator::templates_for_category(FlawCategory::SolidMotor)[0].name, "O-Ring Seal Defect");
    assert_eq!(
        FlawGenerator::templates_for_category(FlawCategory::LiquidEngine)[0].name,
        "Turbopump Bearing Defect"
    );
}

#[test]
fn test_flaw_ids_increase() {
    let mut g = FlawGenerator::new();
    assert_eq!(g.next_flaw_id(), 1);
    assert_eq!(g.next_flaw_id(), 2);
    assert_eq!(g.next_flaw_id(), 3);
}

#[test]
fn test_pick_distinct_indices() {
    for _ in 0..50 {
        let p = pick_distinct_indices(10, 4);
        assert_eq!(p.len(), 4);
        for (a, x) in p.iter().enumerate() {
            assert!(*x < 10);
            for y in p.iter().skip(a + 1) {
                assert_ne!(x, y);
            }
        }
    }
    assert_eq!(pick_distinct_indices(3, 8).len(), 3);
    assert!(pick_distinct_indices(0, 2).is_empty());
}

#[test]
fn test_select_random_templates() {
    let g = FlawGenerator::new();
    let templates = design_flaw_templates();
    let picked = g.select_random_templates(&templates, 6);
    assert_eq!(picked.len(), 6);
    for a in 0..picked.len() {
        for b in a + 1..picked.len() {
            assert_ne!(picked[a].name, picked[b].name);
        }
    }
}

#[test]
fn test_flaw_applies_to_stage() {
    assert!(flaw_applies_to_stage(FlawType::Design, None, None));
    assert!(flaw_applies_to_stage(FlawType::Design, Some(3), Some(1)));
    assert!(flaw_applies_to_stage(FlawType::Engine, Some(1), Some(1)));
    assert!(!flaw_applies_to_stage(FlawType::Engine, Some(1), Some(2)));
    assert!(!flaw_applies_to_stage(FlawType::Engine, None, Some(1)));
    assert!(!flaw_applies_to_stage(FlawType::Engine, Some(1), None));
}

#[test]
fn test_category_template_names() {
    let liquid: Vec<&str> = FlawGenerator::templates_for_category(FlawCategory::LiquidEngine).iter().map(|t| t.name).collect();
    assert_eq!(
        liquid,
        vec![
            "Turbopump Bearing Defect",
            "Combustion Chamber Crack",
            "Fuel Injector Misalignment",
            "Gimbal Actuator Weakness",
            "Propellant Valve Seal",
            "Igniter Reliability Issue",
            "Turbine Blade Resonance",
        ]
    );
    let solid: Vec<&str> = FlawGenerator::templates_for_category(FlawCategory::SolidMotor).iter().map(|t| t.name).collect();
    assert_eq!(
        solid,
        vec![
            "O-Ring Seal Defect",
            "Propellant Grain Crack",
            "Nozzle Throat Erosion",
            "Case Insulation Failure",
            "Igniter Squib Malfunction",
        ]
    );
    for names in [liquid, solid] {
        for i in 0..names.len() {
            for j in (i + 1)..names.len() {
                assert_ne!(names[i], names[j]);
            }
        }
    }
}

#[test]
fn test_shuffle_prefix_follows_draws() {
    assert_eq!(shuffle_prefix(5, &vec![3, 3, 4]), vec![3, 0, 4]);
    assert_eq!(shuffle_prefix(5, &vec![0, 1]), vec![0, 1]);
    assert_eq!(shuffle_prefix(3, &vec![2, 2, 2]), vec![2, 0, 1]);
    assert_eq!(shuffle_prefix(4, &vec![]), Vec::<usize>::new());
}
