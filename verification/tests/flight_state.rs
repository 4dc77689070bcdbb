use rocket_tycoon::flight_state::{process_flights, FlightProgress, FlightStatus};
use rocket_tycoon::mission_plan::{MissionLeg, MissionPlan};

fn leo_plan() -> MissionPlan {
    MissionPlan::from_shortest_path("earth_surface", "leo").unwrap()
}

fn leg(from: &'static str, to: &'static str, transit_days: u32) -> MissionLeg {
    MissionLeg {
        from,
        to,
        delta_v_required: 0,
        animation: None,
        can_aerobrake: false,
        stages_to_burn: None,
        refuel_before: false,
        transit_days,
    }
}

#[test]
fn test_flight_from_design() {
    let flight = FlightProgress::new(1, 0, 1, "leo", leo_plan());
    assert_eq!(flight.id, 1);
    assert_eq!(flight.design_lineage_index, 0);
    assert_eq!(flight.revision_number, 1);
    assert_eq!(flight.current_location, "earth_surface");
    assert_eq!(flight.destination, "leo");
    assert_eq!(flight.status, FlightStatus::InTransit);
}

#[test]
fn test_flight_complete() {
    let mut flight = FlightProgress::new(1, 0, 1, "leo", leo_plan());
    flight.complete();
    assert_eq!(flight.status, FlightStatus::Completed);
    assert_eq!(flight.current_location, "leo");
}

#[test]
fn test_flight_fail() {
    let mut flight = FlightProgress::new(1, 0, 1, "leo", leo_plan());
    flight.fail();
    assert_eq!(flight.status, FlightStatus::Failed);
    assert_eq!(flight.current_location, "earth_surface");
}

#[test]
fn test_advance_leg() {
    let geo_plan = MissionPlan::from_shortest_path("earth_surface", "geo").unwrap();
    let mut flight = FlightProgress::new(1, 0, 1, "geo", geo_plan);
    assert_eq!(flight.current_leg_index, 0);
    assert_eq!(flight.current_location, "earth_surface");

    flight.advance_leg();
    assert_eq!(flight.current_leg_index, 1);
    assert_eq!(flight.current_location, "leo");

    flight.advance_leg();
    assert_eq!(flight.current_leg_index, 2);
    assert_eq!(flight.current_location, "gto");

    flight.advance_leg();
    assert_eq!(flight.current_leg_index, 3);
    assert_eq!(flight.current_location, "geo");
}

#[test]
fn test_fail_at_leg() {
    let geo_plan = MissionPlan::from_shortest_path("earth_surface", "geo").unwrap();
    let mut flight = FlightProgress::new(1, 0, 1, "geo", geo_plan);
    flight.advance_leg();
    assert_eq!(flight.current_location, "leo");
    flight.fail_at_leg(1);
    assert_eq!(flight.status, FlightStatus::Failed);
    assert_eq!(flight.current_location, "leo");
}

#[test]
fn test_fail_at_surface_leg() {
    let geo_plan = MissionPlan::from_shortest_path("earth_surface", "geo").unwrap();
    let mut flight = FlightProgress::new(1, 0, 1, "geo", geo_plan);
    flight.fail_at_leg(0);
    assert_eq!(flight.status, FlightStatus::Failed);
    assert_eq!(flight.current_location, "earth_surface");
}

#[test]
fn test_is_active() {
    let mut flight = FlightProgress::new(1, 0, 1, "leo", leo_plan());
    assert!(flight.is_active());

    flight.status = FlightStatus::AtLocation;
    assert!(flight.is_active());

    flight.status = FlightStatus::Completed;
    assert!(!flight.is_active());

    flight.status = FlightStatus::Failed;
    assert!(!flight.is_active());
}

#[test]
fn test_tick_transit_day_zero_transit() {
    let mut flight = FlightProgress::new(1, 0, 1, "leo", leo_plan());
    assert_eq!(flight.transit_days_remaining, 0);
    assert!(flight.tick_transit_day());
}

#[test]
fn test_tick_transit_day_multi_day() {
    let geo_plan = MissionPlan::from_shortest_path("earth_surface", "geo").unwrap();
    let mut flight = FlightProgress::new(1, 0, 1, "geo", geo_plan);

    assert_eq!(flight.transit_days_remaining, 0);
    assert!(flight.tick_transit_day());
    flight.advance_leg();
    assert_eq!(flight.current_location, "leo");

    assert_eq!(flight.transit_days_remaining, 1);
    assert!(flight.tick_transit_day());
    flight.advance_leg();
    assert_eq!(flight.current_location, "gto");

    assert_eq!(flight.transit_days_remaining, 0);
    assert!(flight.tick_transit_day());
    flight.advance_leg();
    assert_eq!(flight.current_location, "geo");
    assert!(flight.all_legs_completed());
}

#[test]
fn test_tick_transit_multi_leg_with_transit() {
    let plan = MissionPlan::from_shortest_path("earth_surface", "lunar_surface").unwrap();
    let mut flight = FlightProgress::new(1, 0, 1, "lunar_surface", plan);

    assert_eq!(flight.transit_days_remaining, 0);
    assert!(flight.tick_transit_day());
    flight.advance_leg();
    assert_eq!(flight.current_location, "leo");

    assert_eq!(flight.transit_days_remaining, 4);
    for day in 0..3 {
        assert!(!flight.tick_transit_day(), "Day {} should not complete", day);
    }
    assert!(flight.tick_transit_day());
    flight.advance_leg();
    assert_eq!(flight.current_location, "lunar_orbit");

    assert_eq!(flight.transit_days_remaining, 0);
    assert!(flight.tick_transit_day());
    flight.advance_leg();
    assert_eq!(flight.current_location, "lunar_surface");
    assert!(flight.all_legs_completed());
}

#[test]
fn test_total_transit_days_remaining() {
    let plan = MissionPlan::from_shortest_path("earth_surface", "lunar_surface").unwrap();
    let mut flight = FlightProgress::new(1, 0, 1, "lunar_surface", plan);

    assert_eq!(flight.total_transit_days_remaining(), 4);

    flight.tick_transit_day();
    flight.advance_leg();
    assert_eq!(flight.total_transit_days_remaining(), 4);

    flight.tick_transit_day();
    flight.tick_transit_day();
    assert_eq!(flight.total_transit_days_remaining(), 2);
}

#[test]
fn test_advance_past_end_is_noop() {
    let mut flight = FlightProgress::new(7, 2, 3, "leo", leo_plan());
    flight.advance_leg();
    assert!(flight.all_legs_completed());
    assert_eq!(flight.transit_days_remaining, 0);
    flight.advance_leg();
    assert_eq!(flight.current_leg_index, 1);
    assert_eq!(flight.current_location, "leo");
    assert_eq!(flight.total_transit_days_remaining(), 0);
    assert!(flight.leg(1).is_none());
    assert_eq!(flight.leg(0).unwrap().to, "leo");
    assert_eq!(flight.leg_count(), 1);
    assert_eq!(flight.id, 7);
    assert_eq!(flight.design_lineage_index, 2);
    assert_eq!(flight.revision_number, 3);
}

#[test]
fn test_only_ticks_consume_transit_time() {
    let plan = MissionPlan {
        legs: vec![leg("a", "b", 2), leg("b", "c", 3), leg("c", "d", 1)],
        total_delta_v: 0,
    };
    let mut flight = FlightProgress::new(1, 0, 1, "d", plan);
    let mut expected = 6;
    assert_eq!(flight.total_transit_days_remaining(), expected);
    while !flight.all_legs_completed() {
        if flight.transit_days_remaining > 0 {
            flight.tick_transit_day();
            expected -= 1;
        } else {
            flight.advance_leg();
        }
        assert_eq!(flight.total_transit_days_remaining(), expected);
    }
    assert_eq!(expected, 0);
    assert_eq!(flight.current_location, "d");
}

#[test]
fn test_transit_day_skips_zero_day_legs() {
    let plan = MissionPlan {
        legs: vec![leg("a", "b", 1), leg("b", "c", 0), leg("c", "d", 2), leg("d", "e", 0)],
        total_delta_v: 0,
    };
    let mut flight = FlightProgress::new(7, 0, 1, "e", plan);
    assert_eq!(flight.transit_days_remaining, 1);
    assert!(!flight.process_transit_day());
    assert_eq!(flight.current_leg_index, 2);
    assert_eq!(flight.current_location, "c");
    assert_eq!(flight.transit_days_remaining, 2);
    assert!(!flight.process_transit_day());
    assert_eq!(flight.transit_days_remaining, 1);
    assert_eq!(flight.current_leg_index, 2);
    assert!(flight.process_transit_day());
    assert_eq!(flight.current_leg_index, 4);
    assert_eq!(flight.current_location, "e");
    assert_eq!(flight.transit_days_remaining, 0);
}

#[test]
fn test_transit_day_leaves_other_flights_alone() {
    let mut done = FlightProgress::new(1, 0, 1, "leo", leo_plan());
    done.complete();
    let before = done.current_location.clone();
    assert!(!done.process_transit_day());
    assert_eq!(done.status, FlightStatus::Completed);
    assert_eq!(done.current_location, before);
}

#[test]
fn test_process_flights_reports_arrivals() {
    let quick = MissionPlan { legs: vec![leg("a", "b", 1)], total_delta_v: 0 };
    let slow = MissionPlan { legs: vec![leg("a", "b", 3)], total_delta_v: 0 };
    let mut flights = vec![
        FlightProgress::new(1, 0, 1, "b", quick.clone()),
        FlightProgress::new(2, 0, 1, "b", slow),
        FlightProgress::new(3, 0, 1, "b", quick),
    ];
    flights[2].fail();
    assert_eq!(process_flights(&mut flights), vec![1]);
    assert_eq!(flights[1].transit_days_remaining, 2);
    assert_eq!(flights[2].status, FlightStatus::Failed);
}
