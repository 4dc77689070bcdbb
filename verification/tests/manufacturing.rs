use rocket_tycoon::manufacturing::{
    engines_required, floor_space_for_rocket, FloorSpace, FloorSpaceOrder, FLOOR_SPACE_CONSTRUCTION_DAYS,
    STARTING_FLOOR_SPACE,
};
use rocket_tycoon::rocket_design::{RocketDesign, RocketStage};

fn default_design() -> RocketDesign {
    RocketDesign {
        stages: vec![
            RocketStage { engine_design_id: 1, engine_count: 5 },
            RocketStage { engine_design_id: 0, engine_count: 1 },
        ],
    }
}

#[test]
fn test_floor_space_for_rocket() {
    let design = default_design();
    let space = floor_space_for_rocket(&design);
    assert_eq!(space, 10);
}

#[test]
fn test_engines_required() {
    let design = default_design();
    let required = engines_required(&design);
    assert_eq!(required.len(), 2);
    assert_eq!(required[0], (0, 1));
    assert_eq!(required[1], (1, 5));
}

#[test]
fn test_engines_required_merges_repeated_designs() {
    let design = RocketDesign {
        stages: vec![
            RocketStage { engine_design_id: 7, engine_count: 3 },
            RocketStage { engine_design_id: 2, engine_count: 1 },
            RocketStage { engine_design_id: 7, engine_count: 4 },
            RocketStage { engine_design_id: 5, engine_count: 0 },
        ],
    };
    assert_eq!(engines_required(&design), vec![(2, 1), (5, 0), (7, 7)]);
    assert_eq!(floor_space_for_rocket(&design), 8 + 8);
    assert!(engines_required(&RocketDesign { stages: vec![] }).is_empty());
}

#[test]
fn test_floor_space_tracking() {
    let mfg = FloorSpace::new();
    assert_eq!(mfg.floor_space_total, STARTING_FLOOR_SPACE);
    assert_eq!(mfg.floor_space_constructing(), 0);
}

#[test]
fn test_floor_space_construction() {
    let mut mfg = FloorSpace::new();
    let initial = mfg.floor_space_total;

    mfg.buy_floor_space(5);
    assert_eq!(mfg.floor_space_constructing(), 5);
    assert_eq!(mfg.floor_space_total, initial);

    for _ in 0..29 {
        let completed = mfg.process_construction();
        assert_eq!(completed, 0);
    }
    assert_eq!(mfg.floor_space_total, initial);

    let completed = mfg.process_construction();
    assert_eq!(completed, 5);
    assert_eq!(mfg.floor_space_total, initial + 5);
    assert_eq!(mfg.floor_space_constructing(), 0);
}

#[test]
fn test_construction_conserves_units() {
    let mut mfg = FloorSpace::new();
    mfg.buy_floor_space(3);
    for _ in 0..10 {
        mfg.process_construction();
    }
    mfg.buy_floor_space(4);
    let before = mfg.floor_space_total + mfg.floor_space_constructing();
    for day in 0..FLOOR_SPACE_CONSTRUCTION_DAYS {
        mfg.process_construction();
        assert_eq!(mfg.floor_space_total + mfg.floor_space_constructing(), before, "day {}", day);
    }
    assert_eq!(mfg.floor_space_total, STARTING_FLOOR_SPACE + 7);
    assert!(mfg.floor_space_under_construction.is_empty());
}

#[test]
fn test_zero_day_construction_order_is_dropped_uncounted() {
    let mut floor = FloorSpace::new();
    let initial = floor.floor_space_total;
    floor.floor_space_under_construction = vec![
        FloorSpaceOrder { units: 4, days_remaining: 0 },
        FloorSpaceOrder { units: 2, days_remaining: 1 },
        FloorSpaceOrder { units: 3, days_remaining: 5 },
    ];
    assert_eq!(floor.process_construction(), 2);
    assert_eq!(floor.floor_space_total, initial + 2);
    assert_eq!(floor.floor_space_under_construction, vec![FloorSpaceOrder { units: 3, days_remaining: 4 }]);
}

#[test]
fn test_engines_required_large_counts_on_separate_designs() {
    let design = RocketDesign {
        stages: vec![
            RocketStage { engine_design_id: 3, engine_count: u32::MAX },
            RocketStage { engine_design_id: 1, engine_count: 7 },
        ],
    };
    assert!(design.engine_counts_fit());
    assert_eq!(design.checked_total_engines(), None);
    assert_eq!(engines_required(&design), vec![(1, 7), (3, u32::MAX)]);
    let overflowing = RocketDesign {
        stages: vec![
            RocketStage { engine_design_id: 3, engine_count: u32::MAX },
            RocketStage { engine_design_id: 3, engine_count: 1 },
        ],
    };
    assert!(!overflowing.engine_counts_fit());
    assert_eq!(overflowing.checked_engines_for(3), None);
    assert_eq!(overflowing.checked_engines_for(1), Some(0));
}
