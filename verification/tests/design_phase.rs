use rocket_tycoon::design_phase::{phase_after_work, DesignPhase};

#[test]
fn test_status_display() {
    assert_eq!(DesignPhase::Specification.name(), "Specification");
    assert_eq!(DesignPhase::Complete.name(), "Complete");
    assert_eq!(DesignPhase::Engineering.name(), "Engineering");
    assert_eq!(DesignPhase::Testing.name(), "Testing");
    assert_eq!(DesignPhase::Fixing.name(), "Fixing");
}

#[test]
fn test_can_edit_and_launch() {
    assert!(DesignPhase::Specification.can_edit());
    assert!(!DesignPhase::Specification.can_launch());
    assert!(!DesignPhase::Testing.can_edit());
    assert!(DesignPhase::Testing.can_launch());
    assert!(DesignPhase::Fixing.can_launch());
    assert!(DesignPhase::Complete.can_launch());
    assert!(!DesignPhase::Complete.can_edit());
    assert!(!DesignPhase::Engineering.can_launch());
}

#[test]
fn test_working_phases() {
    assert!(!DesignPhase::Specification.is_working());
    assert!(DesignPhase::Engineering.is_working());
    assert!(DesignPhase::Testing.is_working());
    assert!(DesignPhase::Fixing.is_working());
    assert!(!DesignPhase::Complete.is_working());
}

#[test]
fn test_phase_after_work() {
    assert_eq!(phase_after_work(DesignPhase::Engineering, true), DesignPhase::Testing);
    assert_eq!(phase_after_work(DesignPhase::Engineering, false), DesignPhase::Engineering);
    assert_eq!(phase_after_work(DesignPhase::Testing, true), DesignPhase::Testing);
    assert_eq!(phase_after_work(DesignPhase::Fixing, true), DesignPhase::Testing);
    assert_eq!(phase_after_work(DesignPhase::Fixing, false), DesignPhase::Fixing);
    assert_eq!(phase_after_work(DesignPhase::Specification, true), DesignPhase::Specification);
    assert_eq!(phase_after_work(DesignPhase::Complete, true), DesignPhase::Complete);
}
