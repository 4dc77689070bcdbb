use rocket_tycoon::manifest::Manifest;

#[derive(Debug, Clone, PartialEq)]
enum Cargo {
    Contract { contract_id: u32, name: &'static str, reward: f64, mass_kg: f64 },
    Depot { name: &'static str, capacity_kg: f64, mass_kg: f64 },
}

fn contract(m: &mut Manifest<Cargo>, contract_id: u32, dest: &str, mass_kg: f64) -> u32 {
    m.add_entry(
        Cargo::Contract { contract_id, name: "C", reward: 1e6, mass_kg },
        dest.to_string(),
        dest.to_uppercase(),
    )
}

#[test]
fn test_empty_manifest() {
    let m: Manifest<Cargo> = Manifest::new();
    assert!(m.is_empty());
    assert_eq!(m.len(), 0);
    assert_eq!(m.max_delta_v(), 0);
    assert!(m.unique_destinations_sorted_by_delta_v().is_empty());
}

#[test]
fn test_add_contract() {
    let mut m = Manifest::new();
    let id = m.add_entry(
        Cargo::Contract { contract_id: 42, name: "SatCom - Comms", reward: 5_000_000.0, mass_kg: 500.0 },
        "leo".to_string(),
        "Low Earth Orbit".to_string(),
    );
    assert_eq!(id, 1);
    assert_eq!(m.len(), 1);
    assert!(!m.is_empty());
    let entry = m.get(0).unwrap();
    assert_eq!(entry.destination, "leo");
    assert_eq!(entry.destination_display, "Low Earth Orbit");
    assert_eq!(
        entry.payload,
        Cargo::Contract { contract_id: 42, name: "SatCom - Comms", reward: 5_000_000.0, mass_kg: 500.0 }
    );
}

#[test]
fn test_add_depot() {
    let mut m = Manifest::new();
    let id = m.add_entry(
        Cargo::Depot { name: "Depot Alpha", capacity_kg: 5000.0, mass_kg: 300.0 },
        "lunar_orbit".to_string(),
        "Lunar Orbit".to_string(),
    );
    assert_eq!(id, 1);
    let entry = m.get(0).unwrap();
    assert!(matches!(entry.payload, Cargo::Depot { name: "Depot Alpha", .. }));
    assert_eq!(entry.destination, "lunar_orbit");
}

#[test]
fn test_remove_entry() {
    let mut m = Manifest::new();
    let id1 = contract(&mut m, 1, "leo", 500.0);
    let id2 = contract(&mut m, 2, "geo", 1000.0);
    let removed = m.remove_entry(id1);
    assert!(removed.is_some());
    assert!(matches!(removed.unwrap().payload, Cargo::Contract { contract_id: 1, .. }));
    assert_eq!(m.len(), 1);
    assert_eq!(m.get(0).unwrap().entry_id, id2);
    assert!(m.remove_entry(999).is_none());
}

#[test]
fn test_unique_destinations_sorted() {
    let mut m = Manifest::new();
    contract(&mut m, 1, "geo", 500.0);
    contract(&mut m, 2, "leo", 500.0);
    contract(&mut m, 3, "leo", 200.0);
    let dests = m.unique_destinations_sorted_by_delta_v();
    assert_eq!(dests.len(), 2);
    assert_eq!(dests[0], "leo");
    assert_eq!(dests[1], "geo");
}

#[test]
fn test_unreachable_destinations_sort_last_in_order() {
    let mut m = Manifest::new();
    contract(&mut m, 1, "mars", 1.0);
    contract(&mut m, 2, "lunar_surface", 1.0);
    contract(&mut m, 3, "earth_surface", 1.0);
    contract(&mut m, 4, "venus", 1.0);
    contract(&mut m, 5, "gto", 1.0);
    let dests = m.unique_destinations_sorted_by_delta_v();
    assert_eq!(dests, vec!["earth_surface", "gto", "lunar_surface", "mars", "venus"]);
    assert_eq!(m.max_delta_v(), 0);
}

#[test]
fn test_entries_for_destination() {
    let mut m = Manifest::new();
    contract(&mut m, 1, "leo", 500.0);
    contract(&mut m, 2, "geo", 1000.0);
    contract(&mut m, 3, "leo", 200.0);
    let leo_entries = m.entries_for_destination("leo");
    assert_eq!(leo_entries.len(), 2);
    assert_eq!(leo_entries[0].entry_id, 1);
    assert_eq!(leo_entries[1].entry_id, 3);
    assert_eq!(m.entries_for_destination("geo").len(), 1);
    assert_eq!(m.entries_for_destination("lunar_surface").len(), 0);
}

#[test]
fn test_max_delta_v() {
    let mut m = Manifest::new();
    contract(&mut m, 1, "leo", 500.0);
    assert_eq!(m.max_delta_v(), 8100);
    contract(&mut m, 2, "geo", 1000.0);
    assert_eq!(m.max_delta_v(), 12040);
    contract(&mut m, 3, "lunar_surface", 1000.0);
    assert_eq!(m.max_delta_v(), 13650);
}

#[test]
fn test_clear() {
    let mut m = Manifest::new();
    contract(&mut m, 1, "leo", 500.0);
    contract(&mut m, 2, "geo", 1000.0);
    assert_eq!(m.len(), 2);
    m.clear();
    assert!(m.is_empty());
    assert_eq!(m.len(), 0);
    assert_eq!(contract(&mut m, 3, "leo", 1.0), 3);
}

#[test]
fn test_get_by_id() {
    let mut m = Manifest::new();
    let id = contract(&mut m, 1, "leo", 500.0);
    assert!(m.get_by_id(id).is_some());
    assert!(m.get_by_id(999).is_none());
}

#[test]
fn test_entry_ids_increment() {
    let mut m = Manifest::new();
    let id1 = contract(&mut m, 1, "leo", 500.0);
    let id2 = m.add_entry(
        Cargo::Depot { name: "D1", capacity_kg: 5000.0, mass_kg: 300.0 },
        "leo".to_string(),
        "LEO".to_string(),
    );
    assert_eq!(id1, 1);
    assert_eq!(id2, 2);
}
