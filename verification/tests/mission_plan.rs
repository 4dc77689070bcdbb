use rocket_tycoon::location::TransferAnimation;
use rocket_tycoon::mission_plan::{is_surface_departure, MissionPlan};

#[test]
fn test_single_leg_plan() {
    let plan = MissionPlan::from_shortest_path("earth_surface", "leo").unwrap();
    assert_eq!(plan.leg_count(), 1);
    assert_eq!(plan.legs[0].from, "earth_surface");
    assert_eq!(plan.legs[0].to, "leo");
    assert_eq!(plan.legs[0].delta_v_required, 8100);
    assert_eq!(plan.total_delta_v, 8100);
    assert!(plan.legs[0].stages_to_burn.is_none());
    assert!(!plan.legs[0].refuel_before);
    assert_eq!(plan.legs[0].transit_days, 0);
    assert_eq!(plan.total_transit_days(), 0);
}

#[test]
fn test_total_transit_days_multi_leg() {
    let plan = MissionPlan::from_shortest_path("earth_surface", "geo").unwrap();
    assert_eq!(plan.total_transit_days(), 1);
    let lunar_plan = MissionPlan::from_shortest_path("earth_surface", "lunar_surface").unwrap();
    assert_eq!(lunar_plan.total_transit_days(), 4);
}

#[test]
fn test_multi_hop_plan() {
    let plan = MissionPlan::from_shortest_path("earth_surface", "geo").unwrap();
    assert_eq!(plan.leg_count(), 3);
    assert_eq!(plan.legs[0].from, "earth_surface");
    assert_eq!(plan.legs[0].to, "leo");
    assert_eq!(plan.legs[1].from, "leo");
    assert_eq!(plan.legs[1].to, "gto");
    assert_eq!(plan.legs[2].from, "gto");
    assert_eq!(plan.legs[2].to, "geo");
    assert_eq!(plan.total_delta_v, 12040);
}

#[test]
fn test_lunar_plan() {
    let plan = MissionPlan::from_shortest_path("earth_surface", "lunar_surface").unwrap();
    assert_eq!(plan.leg_count(), 3);
    assert_eq!(plan.total_delta_v, 13650);
}

#[test]
fn test_no_path_returns_none() {
    assert!(MissionPlan::from_shortest_path("leo", "earth_surface").is_none());
    assert!(MissionPlan::from_shortest_path("earth_surface", "mars").is_none());
}

#[test]
fn test_plan_legs_carry_transfer_data() {
    let plan = MissionPlan::from_shortest_path("earth_surface", "lunar_surface").unwrap();
    let dv: Vec<u64> = plan.legs.iter().map(|l| l.delta_v_required).collect();
    assert_eq!(dv, vec![8100, 3850, 1700]);
    assert_eq!(dv.iter().sum::<u64>(), plan.total_delta_v);
    assert!(matches!(plan.legs[0].animation, Some(TransferAnimation::Launch)));
    assert!(plan.legs[1].animation.is_none());
    assert!(matches!(plan.legs[2].animation, Some(TransferAnimation::Landing)));
    assert_eq!(plan.legs[1].transit_days, 4);
}

#[test]
fn test_is_surface_departure() {
    assert!(is_surface_departure("earth_surface"));
    assert!(is_surface_departure("lunar_surface"));
    assert!(!is_surface_departure("leo"));
    assert!(!is_surface_departure("gto"));
}
