use rocket_tycoon::design_phase::DesignPhase;
use rocket_tycoon::flaw_book::{find_flaw, FlawBook, FlawEntry, FlawQuery};

fn entry(id: u32, discovered: bool, fixed: bool) -> FlawEntry<&'static str> {
    FlawEntry { id, discovered, fixed, details: "flaw" }
}

fn book() -> FlawBook<&'static str> {
    let mut b = FlawBook::new();
    b.active = vec![entry(1, false, false), entry(2, true, false), entry(3, true, false), entry(4, false, false)];
    b
}

#[test]
fn test_next_unfixed_and_counts() {
    let b = book();
    assert_eq!(b.next_unfixed(), Some(1));
    assert_eq!(b.unfixed_discovered_indices(), vec![1, 2]);
    assert_eq!(b.discovered_unfixed_count(), 2);
    assert_eq!(FlawBook::<&'static str>::new().next_unfixed(), None);
}

#[test]
fn test_start_fixing_only_while_testing() {
    let b = book();
    assert!(b.can_start_fixing(DesignPhase::Testing, 1));
    assert!(!b.can_start_fixing(DesignPhase::Engineering, 1));
    assert!(!b.can_start_fixing(DesignPhase::Testing, 0));
    assert!(!b.can_start_fixing(DesignPhase::Testing, 9));
}

#[test]
fn test_fix_moves_to_fixed_list() {
    let mut b = book();
    assert!(!b.fix_by_index(0));
    assert!(b.fix_by_index(2));
    assert_eq!(b.active.iter().map(|e| e.id).collect::<Vec<_>>(), vec![1, 2, 4]);
    assert_eq!(b.fixed.len(), 1);
    assert_eq!(b.fixed[0].id, 3);
    assert!(b.fixed[0].fixed);
    assert!(b.fix_by_id(2));
    assert!(!b.fix_by_id(1));
    assert!(!b.fix_by_id(9));
    assert_eq!(b.fixed.iter().map(|e| e.id).collect::<Vec<_>>(), vec![3, 2]);
    assert!(!b.move_to_fixed(5));
    assert!(b.move_to_fixed(0));
    assert_eq!(b.active.iter().map(|e| e.id).collect::<Vec<_>>(), vec![4]);
}

#[test]
fn test_mark_discovered() {
    let mut b = book();
    assert_eq!(b.mark_discovered(4), Some(3));
    assert!(b.active[3].discovered);
    assert_eq!(b.mark_discovered(4), None);
    assert_eq!(b.mark_discovered(2), None);
    assert_eq!(b.next_unfixed(), Some(1));
    b.set_discovered(0);
    assert_eq!(b.next_unfixed(), Some(0));
    assert_eq!(find_flaw(&b.active, FlawQuery::Discovered(3)), Some(2));
    assert_eq!(find_flaw(&b.active, FlawQuery::Undiscovered(3)), None);
}

#[test]
fn test_flaw_to_fix_next_only_while_testing() {
    let b = book();
    assert_eq!(b.flaw_to_fix_next(DesignPhase::Testing), Some(1));
    assert!(b.can_start_fixing(DesignPhase::Testing, 1));
    assert_eq!(b.flaw_to_fix_next(DesignPhase::Fixing), None);
    assert_eq!(b.flaw_to_fix_next(DesignPhase::Engineering), None);
}
