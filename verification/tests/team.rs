use rocket_tycoon::orders::Manufacturing;
use rocket_tycoon::team::{assign_team_to_order, Team, TeamRoster, TeamTask, TeamType, RAMP_UP_DAYS};

#[test]
fn test_new_team_is_available() {
    let team = Team::new(1, TeamType::Engineering);
    assert_eq!(team.id, 1);
    assert!(team.task.is_none());
    assert_eq!(team.ramp_up_days_remaining, 0);
    assert!(!team.is_ramping_up());
}

#[test]
fn test_team_ramps_up_after_assignment() {
    let mut team = Team::new(1, TeamType::Engineering);
    team.assign(TeamTask::RocketDesign { rocket_design_id: 0 });
    assert!(team.is_ramping_up());
    for _ in 0..RAMP_UP_DAYS {
        team.process_day();
    }
    assert!(!team.is_ramping_up());
    team.process_day();
    assert_eq!(team.ramp_up_days_remaining, 0);
}

#[test]
fn test_reassignment_restarts_ramp_up() {
    let mut team = Team::new(1, TeamType::Engineering);
    for _ in 0..RAMP_UP_DAYS {
        team.process_day();
    }
    assert!(!team.is_ramping_up());
    team.assign(TeamTask::EngineDesign { engine_design_id: 2 });
    assert!(team.is_ramping_up());
    assert_eq!(team.ramp_up_days_remaining, RAMP_UP_DAYS);
    team.unassign();
    assert!(team.task.is_none());
    assert_eq!(team.ramp_up_days_remaining, RAMP_UP_DAYS);
}

#[test]
fn test_hire_and_fire() {
    let mut roster = TeamRoster::new();
    assert_eq!(roster.hire(TeamType::Engineering), 1);
    assert_eq!(roster.hire(TeamType::Manufacturing), 2);
    assert_eq!(roster.team_count(), 2);
    assert_eq!(roster.teams[1].team_type, TeamType::Manufacturing);
    assert!(roster.fire(1));
    assert!(!roster.fire(1));
    assert_eq!(roster.team_count(), 1);
    assert_eq!(roster.hire(TeamType::Engineering), 3);
    assert_eq!(roster.team_ids_of_type(TeamType::Engineering), vec![3]);
    assert_eq!(roster.team_ids_of_type(TeamType::Manufacturing), vec![2]);
    assert_eq!(roster.next_team_id(), 4);
}

#[test]
fn test_engineering_team_cannot_take_manufacturing_work() {
    let mut roster = TeamRoster::new();
    let eng = roster.hire(TeamType::Engineering);
    let mfg = roster.hire(TeamType::Manufacturing);
    assert!(!roster.assign(eng, TeamTask::Manufacturing { order_id: 1 }));
    assert!(roster.get_team(eng).unwrap().task.is_none());
    assert!(!roster.assign(mfg, TeamTask::RocketDesign { rocket_design_id: 0 }));
    assert!(roster.assign(mfg, TeamTask::Manufacturing { order_id: 1 }));
    assert!(roster.assign(eng, TeamTask::RocketDesign { rocket_design_id: 0 }));
    assert!(!roster.assign(99, TeamTask::RocketDesign { rocket_design_id: 0 }));
    assert_eq!(roster.teams_on(TeamTask::Manufacturing { order_id: 1 }), vec![mfg]);
    assert!(roster.unassigned_team_ids().is_empty());
    assert!(roster.unassign(eng));
    assert_eq!(roster.unassigned_team_ids(), vec![eng]);
    assert!(!roster.unassign(99));
}

#[test]
fn test_productive_teams_and_first_idle() {
    let mut roster = TeamRoster::new();
    let a = roster.hire(TeamType::Manufacturing);
    let b = roster.hire(TeamType::Manufacturing);
    let task = TeamTask::Manufacturing { order_id: 5 };
    assert_eq!(roster.first_idle(TeamType::Manufacturing), Some(a));
    assert_eq!(roster.first_idle(TeamType::Engineering), None);
    roster.assign(a, task);
    assert_eq!(roster.first_idle(TeamType::Manufacturing), Some(b));
    assert_eq!(roster.productive_teams_on(task), 0);
    for _ in 0..RAMP_UP_DAYS {
        roster.process_day();
    }
    assert_eq!(roster.productive_teams_on(task), 1);
    roster.assign(b, task);
    assert_eq!(roster.productive_teams_on(task), 1);
    assert_eq!(roster.teams_on(task), vec![a, b]);
}

#[test]
fn test_finished_orders_release_their_teams() {
    let mut mfg = Manufacturing::new();
    let order = mfg.start_engine_order(1, 1, 1, 1).unwrap();
    let other = mfg.start_engine_order(1, 1, 1, 1).unwrap();
    let mut roster = TeamRoster::new();
    let a = roster.hire(TeamType::Manufacturing);
    let b = roster.hire(TeamType::Manufacturing);
    let e = roster.hire(TeamType::Engineering);
    roster.assign(a, TeamTask::Manufacturing { order_id: order });
    roster.assign(b, TeamTask::Manufacturing { order_id: other });
    roster.assign(e, TeamTask::EngineDesign { engine_design_id: 1 });
    mfg.complete_unit(order);
    assert_eq!(mfg.active_order_ids(), vec![other]);
    roster.release_finished_orders(&mfg.active_order_ids());
    assert!(roster.get_team(a).unwrap().task.is_none());
    assert_eq!(roster.get_team(b).unwrap().task, Some(TeamTask::Manufacturing { order_id: other }));
    assert_eq!(roster.get_team(e).unwrap().task, Some(TeamTask::EngineDesign { engine_design_id: 1 }));
}

#[test]
fn test_assign_team_to_order_checks_order_and_team() {
    let mut mfg = Manufacturing::new();
    let engines = mfg.start_engine_order(1, 1, 1, 1).unwrap();
    let waiting = mfg
        .start_rocket_order(
            0,
            1,
            rocket_tycoon::rocket_design::RocketDesign {
                stages: vec![rocket_tycoon::rocket_design::RocketStage { engine_design_id: 1, engine_count: 1 }],
            },
            true,
        )
        .unwrap();
    let mut roster = TeamRoster::new();
    let m = roster.hire(TeamType::Manufacturing);
    let e = roster.hire(TeamType::Engineering);
    assert!(!assign_team_to_order(&mut roster, &mfg, m, waiting));
    assert!(!assign_team_to_order(&mut roster, &mfg, m, 99));
    assert!(!assign_team_to_order(&mut roster, &mfg, e, engines));
    assert!(roster.unassigned_team_ids() == vec![m, e]);
    assert!(assign_team_to_order(&mut roster, &mfg, m, engines));
    assert_eq!(roster.get_team(m).unwrap().task, Some(TeamTask::Manufacturing { order_id: engines }));
    assert_eq!(roster.get_team(m).unwrap().ramp_up_days_remaining, RAMP_UP_DAYS);
}

#[test]
fn test_fire_after_hire_restores_roster() {
    let mut roster = TeamRoster::new();
    roster.hire(TeamType::Engineering);
    roster.hire(TeamType::Manufacturing);
    let before = roster.teams.clone();
    let id = roster.hire(TeamType::Manufacturing);
    assert!(roster.fire(id));
    assert_eq!(roster.teams, before);
}
