use rocket_tycoon::launch_site::LaunchPad;

#[test]
fn test_pad_upgrade() {
    let mut pad = LaunchPad::new();
    assert_eq!(pad.pad_level, 1);
    assert_eq!(pad.pad_level_name(), "Small Pad");
    for level in 2..=5 {
        assert!(pad.can_upgrade_pad());
        assert!(pad.upgrade_pad());
        assert_eq!(pad.pad_level, level);
    }
    assert_eq!(pad.pad_level_name(), "Super Heavy Pad");
    assert!(!pad.can_upgrade_pad());
    assert!(!pad.upgrade_pad());
    assert_eq!(pad.pad_level, 5);
}

#[test]
fn test_pad_names() {
    let names = ["Small Pad", "Medium Pad", "Large Pad", "Heavy Pad", "Super Heavy Pad", "Super Heavy Pad"];
    for (i, n) in names.iter().enumerate() {
        assert_eq!(LaunchPad { pad_level: i as u32 + 1 }.pad_level_name(), *n);
    }
    assert_eq!(LaunchPad::default(), LaunchPad::new());
}
