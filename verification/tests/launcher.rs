use rocket_tycoon::launcher::{launch_result_from_rolls, LaunchResult, LaunchSimulator, LaunchStage};

#[test]
fn test_stage_progression() {
    let stages = LaunchStage::all_stages();
    assert_eq!(stages.len(), 7);
    assert_eq!(stages[0], LaunchStage::Ignition);
    assert_eq!(stages[6], LaunchStage::OrbitInsertion);
}

#[test]
fn test_stage_next() {
    assert_eq!(LaunchStage::Ignition.next(), Some(LaunchStage::Liftoff));
    assert_eq!(LaunchStage::MaxQ.next(), Some(LaunchStage::Stage1Separation));
    assert_eq!(LaunchStage::OrbitInsertion.next(), None);
}

#[test]
fn test_stage_descriptions() {
    assert_eq!(LaunchStage::Ignition.description(), "Engine ignition");
    assert_eq!(LaunchStage::MaxQ.description(), "Max-Q (maximum dynamic pressure)");
}

#[test]
fn test_launch_result_messages() {
    let success = LaunchResult::Success;
    assert!(success.message().contains("Success"));

    let failure = LaunchResult::Failure { stage: LaunchStage::MaxQ };
    assert!(failure.message().contains("Failure"));
    assert!(failure.message().contains("Max-Q"));
}

#[test]
fn test_simulator_creation() {
    let sim = LaunchSimulator::new();
    assert_eq!(sim.current_stage(), Some(LaunchStage::Ignition));
}

#[test]
fn test_simulate_launch() {
    let mut successes = 0;
    let mut failures = 0;

    for _ in 0..100 {
        match LaunchSimulator::simulate_launch() {
            LaunchResult::Success => successes += 1,
            LaunchResult::Failure { .. } => failures += 1,
        }
    }

    assert!(successes > 0, "Should have some successes");
    assert!(failures > 0, "Should have some failures");
}

#[test]
fn test_simulate_launch_with_callback() {
    let mut stages_visited = Vec::new();

    let result = LaunchSimulator::simulate_launch_with_callback(|stage| {
        stages_visited.push(stage);
    });

    assert!(!stages_visited.is_empty());
    assert_eq!(stages_visited[0], LaunchStage::Ignition);

    match result {
        LaunchResult::Success => {
            assert_eq!(stages_visited.len(), 7);
            assert_eq!(*stages_visited.last().unwrap(), LaunchStage::OrbitInsertion);
        }
        LaunchResult::Failure { stage } => {
            assert_eq!(*stages_visited.last().unwrap(), stage);
        }
    }
}

#[test]
fn test_multiple_launches_produce_different_results() {
    let mut results = Vec::new();
    for _ in 0..50 {
        results.push(LaunchSimulator::simulate_launch());
    }
    let has_success = results.iter().any(|r| matches!(r, LaunchResult::Success));
    let has_failure = results.iter().any(|r| matches!(r, LaunchResult::Failure { .. }));
    assert!(has_success || has_failure, "Should produce results");
}

#[test]
fn test_exact_messages() {
    assert_eq!(LaunchResult::Success.message(), "Success! Rocket reached Low Earth Orbit!");
    assert_eq!(
        LaunchResult::Failure { stage: LaunchStage::MECO }.message(),
        "Failure during MECO (Main Engine Cutoff). Rocket exploded."
    );
}

#[test]
fn test_next_walks_all_stages() {
    let stages = LaunchStage::all_stages();
    for i in 0..6 {
        assert_eq!(stages[i].next(), Some(stages[i + 1]));
    }
    let mut s = LaunchStage::Ignition;
    let mut count = 1;
    while let Some(n) = s.next() {
        s = n;
        count += 1;
    }
    assert_eq!(count, 7);
    assert_eq!(s, LaunchStage::OrbitInsertion);
}

#[test]
fn test_result_from_rolls() {
    assert_eq!(launch_result_from_rolls(&vec![true; 7]), LaunchResult::Success);
    assert_eq!(launch_result_from_rolls(&vec![false]), LaunchResult::Failure { stage: LaunchStage::Ignition });
    assert_eq!(
        launch_result_from_rolls(&vec![true, true, false]),
        LaunchResult::Failure { stage: LaunchStage::MaxQ }
    );
    assert_eq!(
        launch_result_from_rolls(&vec![true, true, true, true, true, true, false]),
        LaunchResult::Failure { stage: LaunchStage::OrbitInsertion }
    );
}

#[test]
fn test_failure_chances_in_range() {
    let expected = [80, 50, 150, 100, 70, 30, 50];
    for (s, e) in LaunchStage::all_stages().iter().zip(expected.iter()) {
        assert_eq!(s.failure_chance_permille(), *e);
    }
}

#[test]
fn test_default_simulator() {
    let sim = LaunchSimulator::default();
    assert_eq!(sim.current_stage(), Some(LaunchStage::Ignition));
}
