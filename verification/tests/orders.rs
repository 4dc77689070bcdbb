use rocket_tycoon::manufacturing::STARTING_FLOOR_SPACE;
use rocket_tycoon::inventory::EngineStock;
use rocket_tycoon::orders::{Manufacturing, ManufacturingOrder, ManufacturingOrderType, UnitBuilt};
use rocket_tycoon::rocket_design::{RocketDesign, RocketStage};

fn default_design() -> RocketDesign {
    RocketDesign {
        stages: vec![
            RocketStage { engine_design_id: 1, engine_count: 5 },
            RocketStage { engine_design_id: 0, engine_count: 1 },
        ],
    }
}

/// Floor units of an engine at scale 1.0.
const ENGINE_SPACE: usize = 1;

#[test]
fn test_new_manufacturing() {
    let mfg = Manufacturing::new();
    assert_eq!(mfg.floor.floor_space_total, STARTING_FLOOR_SPACE);
    assert!(mfg.active_orders.is_empty());
    assert!(mfg.engines.entries.is_empty());
    assert!(mfg.rockets.entries.is_empty());
}

#[test]
fn test_start_engine_order() {
    let mut mfg = Manufacturing::new();
    let order_id = mfg.start_engine_order(1, 1, ENGINE_SPACE, 3).unwrap();
    assert_eq!(order_id, 1);
    assert_eq!(mfg.active_orders.len(), 1);
    assert_eq!(mfg.floor_space_in_use(), 1);
    assert_eq!(mfg.floor_space_available(), STARTING_FLOOR_SPACE - 1);
    assert!(mfg.get_order(order_id).unwrap().is_engine_order());
}

#[test]
fn test_cannot_start_order_insufficient_floor_space() {
    let mut mfg = Manufacturing::new();
    mfg.floor.floor_space_total = 0;
    assert!(mfg.start_engine_order(1, 1, ENGINE_SPACE, 1).is_none());
    assert!(mfg.active_orders.is_empty());
}

#[test]
fn test_cancel_order() {
    let mut mfg = Manufacturing::new();
    let order_id = mfg.start_engine_order(1, 1, ENGINE_SPACE, 1).unwrap();
    assert_eq!(mfg.active_orders.len(), 1);
    assert_eq!(mfg.floor_space_in_use(), 1);

    assert!(mfg.cancel_order(order_id));
    assert_eq!(mfg.active_orders.len(), 0);
    assert_eq!(mfg.floor_space_in_use(), 0);
    assert!(!mfg.cancel_order(order_id));
}

#[test]
fn test_order_ids_keep_growing_after_cancel() {
    let mut mfg = Manufacturing::new();
    let a = mfg.start_engine_order(1, 1, ENGINE_SPACE, 1).unwrap();
    let b = mfg.start_engine_order(1, 1, ENGINE_SPACE, 1).unwrap();
    assert!(mfg.cancel_order(a));
    let c = mfg.start_engine_order(1, 1, ENGINE_SPACE, 1).unwrap();
    assert_eq!((a, b, c), (1, 2, 3));
    assert_eq!(mfg.get_order(b).unwrap().id, 2);
    assert!(mfg.get_order(a).is_none());
}

#[test]
fn test_available_space_saturates() {
    let mut mfg = Manufacturing::new();
    mfg.start_engine_order(1, 1, 10, 1).unwrap();
    mfg.floor.floor_space_total = 4;
    assert_eq!(mfg.floor_space_available(), 0);
    assert!(mfg.can_start_engine_order_with_space(0));
    assert!(!mfg.can_start_rocket_order_with_space(1));
}

#[test]
fn test_engine_order_waiting_for_engines_defaults_false() {
    let mut mfg = Manufacturing::new();
    let order_id = mfg.start_engine_order(1, 1, ENGINE_SPACE, 1).unwrap();
    assert!(!mfg.get_order(order_id).unwrap().waiting_for_engines);
}

#[test]
fn test_rocket_order_waiting_for_engines() {
    let mut mfg = Manufacturing::new();
    mfg.floor.floor_space_total = 30;
    let order_id = mfg.start_rocket_order(0, 1, default_design(), true).unwrap();
    let order = mfg.get_order(order_id).unwrap();
    assert!(order.waiting_for_engines);
    assert!(order.is_rocket_order());
    assert_eq!(order.floor_space_used, 10);

    let order_id2 = mfg.start_rocket_order(0, 1, default_design(), false).unwrap();
    assert!(!mfg.get_order(order_id2).unwrap().waiting_for_engines);
}

#[test]
fn test_engines_pending_for_design() {
    let mut mfg = Manufacturing::new();
    mfg.start_engine_order(1, 1, ENGINE_SPACE, 5).unwrap();
    assert_eq!(mfg.engines_pending_for_design(1), 5);
    assert_eq!(mfg.engines_pending_for_design(0), 0);

    mfg.start_engine_order(1, 1, ENGINE_SPACE, 3).unwrap();
    assert_eq!(mfg.engines_pending_for_design(1), 8);

    if let ManufacturingOrderType::Engine { completed, .. } = &mut mfg.active_orders[0].order_type {
        *completed = 2;
    }
    assert_eq!(mfg.engines_pending_for_design(1), 6);
}

#[test]
fn test_try_unblock_rocket_orders_unblocks_when_engines_arrive() {
    let mut mfg = Manufacturing::new();
    let order_id = mfg.start_rocket_order(0, 1, default_design(), true).unwrap();
    assert!(mfg.get_order(order_id).unwrap().waiting_for_engines);

    let unblocked = mfg.try_unblock_rocket_orders();
    assert!(unblocked.is_empty());
    assert!(mfg.get_order(order_id).unwrap().waiting_for_engines);

    for _ in 0..5 {
        mfg.engines.add_engine_to_inventory(1, 1);
    }
    mfg.engines.add_engine_to_inventory(0, 1);

    let unblocked = mfg.try_unblock_rocket_orders();
    assert_eq!(unblocked, vec![order_id]);
    assert!(!mfg.get_order(order_id).unwrap().waiting_for_engines);

    assert_eq!(mfg.engines.get_engines_available(1), 0);
    assert_eq!(mfg.engines.get_engines_available(0), 0);
}

#[test]
fn test_try_unblock_fifo_priority() {
    let mut mfg = Manufacturing::new();
    mfg.floor.floor_space_total = 30;
    let order1 = mfg.start_rocket_order(0, 1, default_design(), true).unwrap();
    let order2 = mfg.start_rocket_order(0, 1, default_design(), true).unwrap();

    for _ in 0..5 {
        mfg.engines.add_engine_to_inventory(1, 1);
    }
    mfg.engines.add_engine_to_inventory(0, 1);

    let unblocked = mfg.try_unblock_rocket_orders();
    assert_eq!(unblocked, vec![order1]);
    assert!(!mfg.get_order(order1).unwrap().waiting_for_engines);
    assert!(mfg.get_order(order2).unwrap().waiting_for_engines);
}

#[test]
fn test_try_unblock_skips_to_later_order_that_fits() {
    let mut mfg = Manufacturing::new();
    mfg.floor.floor_space_total = 40;
    let big = mfg.start_rocket_order(0, 1, default_design(), true).unwrap();
    let small_design = RocketDesign { stages: vec![RocketStage { engine_design_id: 1, engine_count: 2 }] };
    let small = mfg.start_rocket_order(1, 1, small_design, true).unwrap();
    for _ in 0..3 {
        mfg.engines.add_engine_to_inventory(1, 1);
    }
    let unblocked = mfg.try_unblock_rocket_orders();
    assert_eq!(unblocked, vec![small]);
    assert!(mfg.get_order(big).unwrap().waiting_for_engines);
    assert_eq!(mfg.engines.get_engines_available(1), 1);
}

#[test]
fn test_increase_engine_order_quantity() {
    let mut mfg = Manufacturing::new();
    let order_id = mfg.start_engine_order(1, 1, ENGINE_SPACE, 3).unwrap();
    assert!(mfg.increase_engine_order_quantity(order_id, 5));
    match &mfg.get_order(order_id).unwrap().order_type {
        ManufacturingOrderType::Engine { quantity, .. } => assert_eq!(*quantity, 8),
        _ => panic!("Expected engine order"),
    }
}

#[test]
fn test_increase_rocket_order_returns_none() {
    let mut mfg = Manufacturing::new();
    let order_id = mfg.start_rocket_order(0, 1, default_design(), false).unwrap();
    assert!(!mfg.increase_engine_order_quantity(order_id, 2));
}

#[test]
fn test_increase_nonexistent_order_returns_none() {
    let mut mfg = Manufacturing::new();
    assert!(!mfg.increase_engine_order_quantity(999, 2));
}

#[test]
fn test_production_history_tracking() {
    let mut mfg = Manufacturing::new();
    mfg.engines.add_engine_to_inventory(1, 1);
    mfg.engines.add_engine_to_inventory(1, 1);
    mfg.engines.add_engine_to_inventory(0, 1);
    assert_eq!(mfg.engines.production_history.len(), 2);
    let kerolox_count = mfg
        .engines
        .production_history
        .iter()
        .find(|(id, _)| *id == 1)
        .map(|(_, c)| *c)
        .unwrap_or(0);
    assert_eq!(kerolox_count, 2);
}

#[test]
fn test_complete_engine_units_until_order_done() {
    let mut mfg = Manufacturing::new();
    let order_id = mfg.start_engine_order(4, 2, ENGINE_SPACE, 2).unwrap();

    let first = mfg.complete_unit(order_id);
    assert_eq!(
        first,
        Some(UnitBuilt::Engine { engine_design_id: 4, revision_number: 2, order_complete: false })
    );
    assert_eq!(mfg.engines.entries, vec![EngineStock { engine_design_id: 4, revision_number: 2, quantity: 1 }]);
    match &mfg.get_order(order_id).unwrap().order_type {
        ManufacturingOrderType::Engine { completed, quantity, .. } => {
            assert_eq!(*completed, 1);
            assert_eq!(*quantity, 2);
        }
        _ => panic!("expected an engine order"),
    }

    let second = mfg.complete_unit(order_id);
    assert_eq!(
        second,
        Some(UnitBuilt::Engine { engine_design_id: 4, revision_number: 2, order_complete: true })
    );
    assert_eq!(mfg.engines.entries, vec![EngineStock { engine_design_id: 4, revision_number: 2, quantity: 2 }]);
    assert_eq!(mfg.engines.production_history, vec![(4, 2)]);
    assert!(mfg.get_order(order_id).is_none());
    assert_eq!(mfg.floor_space_in_use(), 0);
}

#[test]
fn test_complete_rocket_unit_assembles_and_removes_order() {
    let mut mfg = Manufacturing::new();
    let design = default_design();
    let order_id = mfg.start_rocket_order(7, 3, design.clone(), false).unwrap();
    let other = mfg.start_engine_order(1, 1, ENGINE_SPACE, 1).unwrap();

    let built = mfg.complete_unit(order_id);
    assert_eq!(built, Some(UnitBuilt::Rocket { rocket_design_id: 7, revision_number: 3, serial_number: 1 }));
    assert_eq!(mfg.rockets.entries.len(), 1);
    assert_eq!(mfg.rockets.entries[0].rocket_design_id, 7);
    assert_eq!(mfg.rockets.entries[0].revision_number, 3);
    assert_eq!(mfg.rockets.entries[0].serial_number, 1);
    assert_eq!(mfg.rockets.entries[0].design_snapshot.stages, design.stages);
    assert!(mfg.get_order(order_id).is_none());
    assert!(mfg.get_order(other).is_some());
    assert_eq!(mfg.active_orders.len(), 1);
}

#[test]
fn test_complete_unit_refuses_waiting_or_unknown_orders() {
    let mut mfg = Manufacturing::new();
    let waiting = mfg.start_rocket_order(0, 1, default_design(), true).unwrap();
    assert_eq!(mfg.complete_unit(waiting), None);
    assert!(mfg.rockets.entries.is_empty());
    assert_eq!(mfg.active_orders.len(), 1);
    assert_eq!(mfg.complete_unit(99), None);
    assert_eq!(mfg.active_orders.len(), 1);
}

#[test]
fn test_completed_engines_unblock_waiting_rocket() {
    let mut mfg = Manufacturing::new();
    let design = RocketDesign { stages: vec![RocketStage { engine_design_id: 2, engine_count: 2 }] };
    let rocket = mfg.start_rocket_order(0, 1, design, true).unwrap();
    let engines = mfg.start_engine_order(2, 1, ENGINE_SPACE, 2).unwrap();
    mfg.complete_unit(engines);
    assert!(mfg.try_unblock_rocket_orders().is_empty());
    mfg.complete_unit(engines);
    assert_eq!(mfg.try_unblock_rocket_orders(), vec![rocket]);
    assert!(mfg.engines.entries.is_empty());
    assert_eq!(
        mfg.complete_unit(rocket),
        Some(UnitBuilt::Rocket { rocket_design_id: 0, revision_number: 1, serial_number: 1 })
    );
    assert!(mfg.active_orders.is_empty());
}

#[test]
fn test_order_book_checks() {
    let mut mfg = Manufacturing::new();
    assert!(mfg.can_start_order());
    assert!(mfg.ids_well_formed());
    assert_eq!(mfg.next_order_id(), 1);
    assert_eq!(mfg.checked_floor_space_in_use(), Some(0));
    let a = mfg.start_engine_order(1, 1, 3, 2).unwrap();
    let b = mfg.start_engine_order(1, 1, 4, 2).unwrap();
    assert_eq!((a, b), (1, 2));
    assert_eq!(mfg.next_order_id(), 3);
    assert_eq!(mfg.checked_floor_space_in_use(), Some(7));
    assert!(mfg.ids_well_formed());
    assert!(mfg.can_complete_unit(a));
    assert!(mfg.can_complete_unit(99));
    assert!(mfg.can_unblock());
    mfg.active_orders[1].id = a;
    assert!(!mfg.ids_well_formed());
    assert!(!mfg.can_start_order());
}

#[test]
fn test_unblock_check_sees_oversized_rocket() {
    let mut mfg = Manufacturing::new();
    let huge = RocketDesign {
        stages: vec![
            RocketStage { engine_design_id: 0, engine_count: u32::MAX },
            RocketStage { engine_design_id: 0, engine_count: 1 },
        ],
    };
    assert_eq!(huge.checked_total_engines(), None);
    assert_eq!(default_design().checked_total_engines(), Some(6));
    assert!(mfg.can_unblock());
    mfg.active_orders.push(ManufacturingOrder {
        id: 1,
        order_type: ManufacturingOrderType::Rocket { rocket_design_id: 0, revision_number: 1, design_snapshot: huge },
        floor_space_used: 0,
        waiting_for_engines: true,
    });
    assert!(!mfg.can_unblock());
}

#[test]
fn test_rocket_inventory_well_formed_check() {
    let mut mfg = Manufacturing::new();
    mfg.floor.floor_space_total = 100;
    assert!(mfg.rockets.is_well_formed());
    let a = mfg.start_rocket_order(0, 1, default_design(), false).unwrap();
    let b = mfg.start_rocket_order(0, 1, default_design(), false).unwrap();
    mfg.complete_unit(a);
    mfg.complete_unit(b);
    assert!(mfg.rockets.is_well_formed());
    assert_eq!(mfg.rockets.next_serial(), 3);
    mfg.rockets.entries.swap(0, 1);
    assert!(!mfg.rockets.is_well_formed());
    assert!(!mfg.can_complete_unit(a));
}

#[test]
fn test_cancel_after_start_restores_orders() {
    let mut mfg = Manufacturing::new();
    mfg.start_engine_order(1, 1, ENGINE_SPACE, 1).unwrap();
    let before: Vec<u32> = mfg.active_order_ids();
    let id = mfg.start_engine_order(2, 1, ENGINE_SPACE, 3).unwrap();
    assert!(mfg.cancel_order(id));
    assert_eq!(mfg.active_order_ids(), before);
    assert_eq!(mfg.floor_space_in_use(), 1);
}
