use rocket_tycoon::inventory::{history_room, EngineInventory, EngineStock, RocketInventory};
use rocket_tycoon::rocket_design::{RocketDesign, RocketStage};

fn default_design() -> RocketDesign {
    RocketDesign {
        stages: vec![
            RocketStage { engine_design_id: 1, engine_count: 5 },
            RocketStage { engine_design_id: 0, engine_count: 1 },
        ],
    }
}

#[test]
fn test_engine_inventory() {
    let mut inv = EngineInventory::new();
    inv.add_engine_to_inventory(1, 1);
    inv.add_engine_to_inventory(1, 1);
    inv.add_engine_to_inventory(1, 2);
    assert_eq!(inv.get_engines_available(1), 3);
    assert_eq!(inv.get_engines_available(0), 0);
    assert_eq!(inv.entries.len(), 2);
    assert_eq!(inv.entries[0], EngineStock { engine_design_id: 1, revision_number: 1, quantity: 2 });
    assert_eq!(inv.production_history, vec![(1, 3)]);
}

#[test]
fn test_consume_engines_for_rocket() {
    let mut inv = EngineInventory::new();
    for _ in 0..5 {
        inv.add_engine_to_inventory(1, 1);
    }
    inv.add_engine_to_inventory(0, 1);
    let design = default_design();
    assert!(inv.has_engines_for_rocket(&design));
    assert!(inv.consume_engines_for_rocket(&design));
    assert_eq!(inv.get_engines_available(1), 0);
    assert_eq!(inv.get_engines_available(0), 0);
    assert!(inv.entries.is_empty());
}

#[test]
fn test_cannot_consume_insufficient_engines() {
    let mut inv = EngineInventory::new();
    for _ in 0..4 {
        inv.add_engine_to_inventory(1, 1);
    }
    inv.add_engine_to_inventory(0, 1);
    let design = default_design();
    assert!(!inv.has_engines_for_rocket(&design));
    assert!(!inv.consume_engines_for_rocket(&design));
    assert_eq!(inv.get_engines_available(1), 4);
    assert_eq!(inv.get_engines_available(0), 1);
}

#[test]
fn test_consume_prefers_oldest_revision() {
    let mut inv = EngineInventory::new();
    for _ in 0..3 {
        inv.add_engine_to_inventory(1, 1);
    }
    for _ in 0..4 {
        inv.add_engine_to_inventory(1, 2);
    }
    inv.add_engine_to_inventory(0, 1);
    inv.add_engine_to_inventory(0, 1);
    assert!(inv.consume_engines_for_rocket(&default_design()));
    assert_eq!(
        inv.entries,
        vec![
            EngineStock { engine_design_id: 1, revision_number: 2, quantity: 2 },
            EngineStock { engine_design_id: 0, revision_number: 1, quantity: 1 },
        ]
    );
}

#[test]
fn test_rocket_inventory() {
    let mut inv = RocketInventory::new();
    inv.add_rocket_to_inventory(0, 1, default_design());
    inv.add_rocket_to_inventory(0, 1, default_design());
    inv.add_rocket_to_inventory(2, 3, default_design());
    assert_eq!(inv.entries.len(), 3);
    assert_eq!(inv.entries[0].serial_number, 1);
    assert_eq!(inv.entries[2].serial_number, 3);
    assert_eq!(inv.production_history, vec![(0, 2), (2, 1)]);
}

#[test]
fn test_consume_rocket() {
    let mut inv = RocketInventory::new();
    inv.add_rocket_to_inventory(0, 1, default_design());
    inv.add_rocket_to_inventory(0, 1, default_design());
    let r = inv.consume_rocket(1).unwrap();
    assert_eq!(r.serial_number, 1);
    assert_eq!(inv.entries.len(), 1);
    assert!(inv.consume_rocket(1).is_none());
    assert!(inv.consume_rocket(99).is_none());
    inv.add_rocket_to_inventory(0, 1, default_design());
    assert_eq!(inv.entries[1].serial_number, 3);
}

#[test]
fn test_add_engine_groups_by_revision() {
    let mut inv = EngineInventory::new();
    inv.add_engine_to_inventory(3, 1);
    inv.add_engine_to_inventory(5, 1);
    inv.add_engine_to_inventory(3, 2);
    inv.add_engine_to_inventory(3, 1);
    assert_eq!(
        inv.entries,
        vec![
            EngineStock { engine_design_id: 3, revision_number: 1, quantity: 2 },
            EngineStock { engine_design_id: 5, revision_number: 1, quantity: 1 },
            EngineStock { engine_design_id: 3, revision_number: 2, quantity: 1 },
        ]
    );
    assert_eq!(inv.production_history, vec![(3, 3), (5, 1)]);
}

#[test]
fn test_engine_count_checks() {
    let mut inv = EngineInventory::new();
    assert!(inv.counts_fit());
    inv.entries.push(EngineStock { engine_design_id: 1, revision_number: 1, quantity: u32::MAX });
    assert_eq!(inv.checked_engines_available(1), Some(u32::MAX));
    assert!(inv.counts_fit());
    inv.entries.push(EngineStock { engine_design_id: 1, revision_number: 2, quantity: 1 });
    assert_eq!(inv.checked_engines_available(1), None);
    assert_eq!(inv.checked_engines_available(2), Some(0));
    assert!(!inv.counts_fit());
}

#[test]
fn test_history_room() {
    assert!(history_room(&vec![], 4));
    assert!(history_room(&vec![(4, 7)], 4));
    assert!(!history_room(&vec![(2, 1), (4, u32::MAX)], 4));
    assert!(history_room(&vec![(2, u32::MAX)], 4));
}
