//! Propellant types used by rocket engines.

use vstd::prelude::*;

verus! {

/// Propellant types used by rocket engines.
#[derive(Debug, Clone, Copy, PartialEq, Eq, Structural, Hash)]
pub enum Propellant {
    LOX,
    RP1,
    LH2,
    Methane,
    UDMH,
    NTO,
    SolidMix,
}

/// Liquid oxygen, liquid hydrogen and liquid methane need cryogenic storage.
pub open spec fn spec_is_cryogenic(p: Propellant) -> bool {
    p == Propellant::LOX || p == Propellant::LH2 || p == Propellant::Methane
}

/// Display name of a propellant.
pub open spec fn propellant_display_name(p: Propellant) -> Seq<char> {
    match p {
        Propellant::LOX => "Liquid Oxygen"@,
        Propellant::RP1 => "RP-1 (Kerosene)"@,
        Propellant::LH2 => "Liquid Hydrogen"@,
        Propellant::Methane => "Liquid Methane"@,
        Propellant::UDMH => "UDMH"@,
        Propellant::NTO => "Nitrogen Tetroxide"@,
        Propellant::SolidMix => "Solid Propellant Mix"@,
    }
}

impl Propellant {
    /// Whether this propellant requires cryogenic storage.
    pub fn is_cryogenic(&self) -> (b: bool)
        ensures
            b == spec_is_cryogenic(*self),
    {
        match self {
            Propellant::LOX | Propellant::LH2 | Propellant::Methane => true,
            _ => false,
        }
    }

    pub fn display_name(&self) -> (s: &'static str)
        ensures
            s@ == propellant_display_name(*self),
    {
        match self {
            Propellant::LOX => "Liquid Oxygen",
            Propellant::RP1 => "RP-1 (Kerosene)",
            Propellant::LH2 => "Liquid Hydrogen",
            Propellant::Methane => "Liquid Methane",
            Propellant::UDMH => "UDMH",
            Propellant::NTO => "Nitrogen Tetroxide",
            Propellant::SolidMix => "Solid Propellant Mix",
        }
    }
}

} // verus!
