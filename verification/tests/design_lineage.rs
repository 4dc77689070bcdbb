use rocket_tycoon::design_lineage::DesignLineage;

#[test]
fn test_new_lineage() {
    let lineage = DesignLineage::new("Test", 42);
    assert_eq!(lineage.name, "Test");
    assert_eq!(*lineage.head(), 42);
    assert!(lineage.revisions.is_empty());
}

#[test]
fn test_cut_revision() {
    let mut lineage = DesignLineage::new("Test", 10);

    let rev1 = lineage.cut_revision("First");
    assert_eq!(rev1, 1);
    assert_eq!(lineage.revisions.len(), 1);

    let rev2 = lineage.cut_revision("Second");
    assert_eq!(rev2, 2);
    assert_eq!(lineage.revisions.len(), 2);
}

#[test]
fn test_get_revision() {
    let mut lineage = DesignLineage::new("Test", 10);
    lineage.cut_revision("First");

    let rev = lineage.get_revision(1).unwrap();
    assert_eq!(rev.snapshot, 10);
    assert_eq!(rev.label, "First");

    assert!(lineage.get_revision(99).is_none());
}

#[test]
fn test_latest_revision() {
    let mut lineage = DesignLineage::new("Test", 10);
    assert!(lineage.latest_revision().is_none());

    lineage.cut_revision("First");
    assert_eq!(lineage.latest_revision().unwrap().revision_number, 1);

    lineage.cut_revision("Second");
    assert_eq!(lineage.latest_revision().unwrap().revision_number, 2);
}

#[test]
fn test_revision_immutability() {
    let mut lineage = DesignLineage::new("Test", 10);
    lineage.cut_revision("Before mutation");

    *lineage.head_mut() = 99;

    let rev = lineage.get_revision(1).unwrap();
    assert_eq!(rev.snapshot, 10);
    assert_eq!(*lineage.head(), 99);
}

#[test]
fn test_head_mutation_independence() {
    let mut lineage = DesignLineage::new("Test", vec![1, 2, 3]);
    lineage.cut_revision("Snapshot");

    lineage.head_mut().push(4);

    assert_eq!(lineage.get_revision(1).unwrap().snapshot, vec![1, 2, 3]);
    assert_eq!(*lineage.head(), vec![1, 2, 3, 4]);
}

#[test]
fn test_revision_numbers_follow_cut_order() {
    let mut lineage = DesignLineage::new("Engines", 0u32);
    for k in 1..=5u32 {
        *lineage.head_mut() = k * 10;
        assert_eq!(lineage.cut_revision("rev"), k);
    }
    for k in 1..=5u32 {
        let rev = lineage.get_revision(k).unwrap();
        assert_eq!(rev.revision_number, k);
        assert_eq!(rev.snapshot, k * 10);
    }
    assert!(lineage.get_revision(0).is_none());
    assert!(lineage.get_revision(6).is_none());
    assert_eq!(lineage.latest_revision().unwrap().snapshot, 50);
}
