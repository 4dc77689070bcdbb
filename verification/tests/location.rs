use rocket_tycoon::location::{DeltaVMap, LocationKind, TransferAnimation};

#[test]
fn test_location_count() {
    let map = DeltaVMap::earth_moon();
    assert_eq!(map.location_count(), 11);
}

#[test]
fn test_location_lookup() {
    let map = DeltaVMap::earth_moon();
    let leo = map.location("leo").unwrap();
    assert_eq!(leo.display_name, "Low Earth Orbit");
    assert_eq!(leo.short_name, "LEO");
    assert_eq!(leo.parent_body, "earth");
    assert!(matches!(leo.kind, LocationKind::Orbit));
}

#[test]
fn test_location_not_found() {
    let map = DeltaVMap::earth_moon();
    assert!(map.location("mars").is_none());
}

#[test]
fn test_direct_transfer() {
    let map = DeltaVMap::earth_moon();
    let t = map.transfer("earth_surface", "leo").unwrap();
    assert_eq!(t.delta_v, 7800);
    assert_eq!(t.aero_drag_loss, 300);
    assert_eq!(t.total_delta_v(), 8100);
    assert!(matches!(t.animation, Some(TransferAnimation::Launch)));
}

#[test]
fn test_no_direct_transfer() {
    let map = DeltaVMap::earth_moon();
    assert!(map.transfer("earth_surface", "geo").is_none());
}

#[test]
fn test_transfers_from_leo() {
    let map = DeltaVMap::earth_moon();
    let transfers = map.transfers_from("leo");
    assert_eq!(transfers.len(), 5);
}

#[test]
fn test_transfers_from_keep_map_order() {
    let map = DeltaVMap::earth_moon();
    let to: Vec<&str> = map.transfers_from("leo").iter().map(|t| t.to).collect();
    assert_eq!(to, vec!["sso", "meo", "gto", "l1", "lunar_orbit"]);
    assert!(map.transfers_from("geo").is_empty());
    assert!(map.transfers_from("mars").is_empty());
}

#[test]
fn test_shortest_path_direct() {
    let map = DeltaVMap::earth_moon();
    let (path, dv) = map.shortest_path("earth_surface", "leo").unwrap();
    assert_eq!(path, vec!["earth_surface", "leo"]);
    assert_eq!(dv, 8100);
}

#[test]
fn test_shortest_path_multi_hop() {
    let map = DeltaVMap::earth_moon();
    let (path, dv) = map.shortest_path("earth_surface", "geo").unwrap();
    assert_eq!(path, vec!["earth_surface", "leo", "gto", "geo"]);
    assert_eq!(dv, 12040);
}

#[test]
fn test_shortest_path_to_lunar_surface() {
    let map = DeltaVMap::earth_moon();
    let (path, dv) = map.shortest_path("earth_surface", "lunar_surface").unwrap();
    assert_eq!(path, vec!["earth_surface", "leo", "lunar_orbit", "lunar_surface"]);
    assert_eq!(dv, 13650);
}

#[test]
fn test_shortest_path_via_l1() {
    let map = DeltaVMap::earth_moon();
    let (path, dv) = map.shortest_path("leo", "lunar_orbit").unwrap();
    assert_eq!(dv, 3850);
    assert!(path.len() <= 3);
}

#[test]
fn test_shortest_path_no_route() {
    let map = DeltaVMap::earth_moon();
    assert!(map.shortest_path("leo", "earth_surface").is_none());
}

#[test]
fn test_shortest_path_unknown_and_same_location() {
    let map = DeltaVMap::earth_moon();
    assert!(map.shortest_path("mars", "leo").is_none());
    assert!(map.shortest_path("leo", "mars").is_none());
    let (path, dv) = map.shortest_path("leo", "leo").unwrap();
    assert_eq!(path, vec!["leo"]);
    assert_eq!(dv, 0);
}

#[test]
fn test_lunar_round_trip() {
    let map = DeltaVMap::earth_moon();
    let t = map.transfer("lunar_surface", "lunar_orbit").unwrap();
    assert_eq!(t.delta_v, 1700);
    assert!(matches!(t.animation, Some(TransferAnimation::Launch)));
}

#[test]
fn test_location_at() {
    let map = DeltaVMap::earth_moon();
    let first = map.location_at(0).unwrap();
    assert_eq!(first.id, "earth_surface");
    assert!(map.location_at(100).is_none());
}

#[test]
fn test_lagrange_points() {
    let map = DeltaVMap::earth_moon();
    let l1 = map.location("l1").unwrap();
    assert!(matches!(l1.kind, LocationKind::LagrangePoint));
    let l2 = map.location("l2").unwrap();
    assert!(matches!(l2.kind, LocationKind::LagrangePoint));
}

#[test]
fn test_transfer_transit_days() {
    let map = DeltaVMap::earth_moon();
    assert_eq!(map.transfer("earth_surface", "suborbital").unwrap().transit_days, 0);
    assert_eq!(map.transfer("earth_surface", "leo").unwrap().transit_days, 0);
    assert_eq!(map.transfer("leo", "sso").unwrap().transit_days, 0);
    assert_eq!(map.transfer("leo", "meo").unwrap().transit_days, 0);
    assert_eq!(map.transfer("gto", "geo").unwrap().transit_days, 0);
    assert_eq!(map.transfer("lunar_orbit", "lunar_surface").unwrap().transit_days, 0);
    assert_eq!(map.transfer("lunar_surface", "lunar_orbit").unwrap().transit_days, 0);
    assert_eq!(map.transfer("leo", "gto").unwrap().transit_days, 1);
    assert_eq!(map.transfer("leo", "l1").unwrap().transit_days, 5);
    assert_eq!(map.transfer("l1", "lunar_orbit").unwrap().transit_days, 2);
    assert_eq!(map.transfer("leo", "lunar_orbit").unwrap().transit_days, 4);
}

#[test]
fn test_locations_listing_matches_lookup() {
    let map = DeltaVMap::earth_moon();
    assert_eq!(map.locations().len(), map.location_count());
    for l in map.locations() {
        assert_eq!(map.location(l.id).unwrap().id, l.id);
    }
}
