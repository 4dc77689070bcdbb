use rocket_tycoon::mission_desk::{MissionDesk, CONTRACTS_TO_SHOW};

fn desk_with_offers(n: usize) -> MissionDesk<&'static str, &'static str> {
    let mut desk = MissionDesk::new();
    for _ in 0..n {
        desk.offer_contract("terms");
    }
    desk
}

#[test]
fn test_offers_get_increasing_ids() {
    let mut desk: MissionDesk<&str, &str> = MissionDesk::new();
    assert_eq!(desk.offers_needed(), CONTRACTS_TO_SHOW);
    assert_eq!(desk.offer_contract("a"), 1);
    assert_eq!(desk.offer_contract("b"), 2);
    assert_eq!(desk.next_contract_id(), 3);
    assert_eq!(desk.offers_needed(), CONTRACTS_TO_SHOW - 2);
    desk.clear_offers();
    assert!(desk.available_contracts.is_empty());
    assert_eq!(desk.offer_contract("c"), 3);
}

#[test]
fn test_select_contract_drops_depot_mission() {
    let mut desk = desk_with_offers(3);
    desk.select_depot_mission("depot to leo");
    assert!(desk.has_active_mission());
    assert!(!desk.select_contract(9));
    assert_eq!(desk.active_depot_mission, Some("depot to leo"));
    assert!(desk.select_contract(2));
    assert_eq!(desk.active_contract.as_ref().unwrap().id, 2);
    assert!(desk.active_depot_mission.is_none());
    assert_eq!(desk.available_contracts.iter().map(|c| c.id).collect::<Vec<_>>(), vec![1, 3]);
}

#[test]
fn test_abandon_returns_contract_to_offer() {
    let mut desk = desk_with_offers(3);
    desk.select_contract(1);
    desk.abandon_contract();
    assert!(desk.active_contract.is_none());
    assert_eq!(desk.available_contracts.iter().map(|c| c.id).collect::<Vec<_>>(), vec![2, 3, 1]);
    desk.abandon_contract();
    assert_eq!(desk.available_contracts.len(), 3);
}

#[test]
fn test_launch_counters() {
    let mut desk = desk_with_offers(2);
    desk.select_contract(1);
    desk.record_launch_failure();
    assert_eq!((desk.total_launches, desk.successful_launches), (1, 0));
    assert!(desk.active_contract.is_some());
    let taken = desk.record_contract_success().unwrap();
    assert_eq!(taken.id, 1);
    assert_eq!((desk.total_launches, desk.successful_launches), (2, 1));
    assert!(desk.active_contract.is_none());
    desk.record_contract_delivered(taken.id);
    assert_eq!(desk.completed_contracts, vec![1]);
}

#[test]
fn test_depot_success_needs_depot_mission() {
    let mut desk = desk_with_offers(1);
    assert!(!desk.record_depot_success());
    assert_eq!(desk.total_launches, 0);
    desk.select_contract(1);
    desk.select_depot_mission("depot to geo");
    assert!(desk.active_contract.is_none());
    assert!(desk.record_depot_success());
    assert_eq!((desk.total_launches, desk.successful_launches), (1, 1));
    assert!(desk.active_depot_mission.is_some());
    desk.cancel_depot_mission();
    assert!(!desk.has_active_mission());
}
