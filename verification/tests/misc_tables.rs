use rocket_tycoon::balance::{complexity_flaw_modifier, COMPLEXITY_BASELINE};
use rocket_tycoon::contract::destination_display_name;
use rocket_tycoon::location::{location_kind, LocationKind};
use rocket_tycoon::propellant::Propellant;
use rocket_tycoon::resources::{all_resources, Resource, TankMaterial};
use rocket_tycoon::text::{chars_equal, contains_chars, u32_to_decimal};

#[test]
fn test_location_kind_table() {
    assert_eq!(location_kind("l1"), Some(LocationKind::LagrangePoint));
    assert_eq!(location_kind("l2"), Some(LocationKind::LagrangePoint));
    assert_eq!(location_kind("lunar_orbit"), Some(LocationKind::Orbit));
    assert_eq!(location_kind("mars"), None);
}

#[test]
fn test_cryogenic() {
    assert!(Propellant::LOX.is_cryogenic());
    assert!(Propellant::LH2.is_cryogenic());
    assert!(Propellant::Methane.is_cryogenic());
    assert!(!Propellant::RP1.is_cryogenic());
    assert!(!Propellant::UDMH.is_cryogenic());
    assert!(!Propellant::NTO.is_cryogenic());
    assert!(!Propellant::SolidMix.is_cryogenic());
}

#[test]
fn test_propellant_names() {
    assert_eq!(Propellant::RP1.display_name(), "RP-1 (Kerosene)");
    assert_eq!(Propellant::NTO.display_name(), "Nitrogen Tetroxide");
}

#[test]
fn test_tank_material_from_index() {
    assert_eq!(TankMaterial::from_index(0), Some(TankMaterial::Aluminium));
    assert_eq!(TankMaterial::from_index(1), Some(TankMaterial::CarbonComposite));
    assert_eq!(TankMaterial::from_index(2), None);
}

#[test]
fn test_tank_material_roundtrip_and_names() {
    for i in 0..TankMaterial::count() {
        assert_eq!(TankMaterial::from_index(i).unwrap().index(), i);
    }
    assert_eq!(TankMaterial::CarbonComposite.display_name(), "Carbon Composite");
    assert_eq!(TankMaterial::default(), TankMaterial::Aluminium);
}

#[test]
fn test_resource_from_index() {
    assert_eq!(Resource::from_index(0), Some(Resource::Aluminium));
    assert_eq!(Resource::from_index(7), Some(Resource::SolidPropellant));
    assert_eq!(Resource::from_index(8), None);
}

#[test]
fn test_resource_order_and_names() {
    let all = all_resources();
    assert_eq!(all.len(), 8);
    for (i, r) in all.iter().enumerate() {
        assert_eq!(Resource::from_index(i), Some(*r));
    }
    assert_eq!(Resource::SolidPropellant.display_name(), "Solid Propellant");
}

#[test]
fn test_destination_display_names() {
    assert_eq!(destination_display_name("leo"), "LEO");
    assert_eq!(destination_display_name("lunar_surface"), "Lunar Surface");
    assert_eq!(destination_display_name("l2"), "L2");
    assert_eq!(destination_display_name("mars_orbit"), "mars_orbit");
}

#[test]
fn test_complexity_flaw_modifier() {
    assert_eq!(complexity_flaw_modifier(COMPLEXITY_BASELINE), 0);
    assert_eq!(complexity_flaw_modifier(8), 2);
    assert_eq!(complexity_flaw_modifier(4), -2);
    assert_eq!(complexity_flaw_modifier(1), -5);
    assert_eq!(complexity_flaw_modifier(9), 3);
}

#[test]
fn test_text_helpers() {
    assert_eq!(u32_to_decimal(0), "0");
    assert_eq!(u32_to_decimal(4294967295), "4294967295");
    assert!(chars_equal("abc", "abc"));
    assert!(!chars_equal("abc", "abd"));
    assert!(!chars_equal("ab", "abc"));
    assert!(contains_chars("stage 1 separation", "separation"));
    assert!(contains_chars("abc", ""));
    assert!(!contains_chars("sep", "separation"));
}
