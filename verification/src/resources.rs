//! Tank materials and the eight manufacturing resources.

use vstd::prelude::*;

verus! {

/// Tank construction material choice: per rocket, affects tank mass and cost.
#[derive(Debug, Clone, Copy, PartialEq, Eq, Structural, Hash)]
pub enum TankMaterial {
    Aluminium,
    CarbonComposite,
}

/// Number of tank materials.
pub const TANK_MATERIAL_COUNT: usize = 2;

/// Position of a tank material in the material list.
pub open spec fn tank_material_index(m: TankMaterial) -> int {
    match m {
        TankMaterial::Aluminium => 0,
        TankMaterial::CarbonComposite => 1,
    }
}

/// The tank material at position `i`, if any.
pub open spec fn tank_material_at(i: int) -> Option<TankMaterial> {
    if i == 0 {
        Some(TankMaterial::Aluminium)
    } else if i == 1 {
        Some(TankMaterial::CarbonComposite)
    } else {
        None
    }
}

impl TankMaterial {
    pub fn display_name(&self) -> (s: &'static str)
        ensures
            s@ == (match *self {
                TankMaterial::Aluminium => "Aluminium"@,
                TankMaterial::CarbonComposite => "Carbon Composite"@,
            }),
    {
        match self {
            TankMaterial::Aluminium => "Aluminium",
            TankMaterial::CarbonComposite => "Carbon Composite",
        }
    }

    pub fn index(&self) -> (i: usize)
        ensures
            i == tank_material_index(*self),
    {
        match self {
            TankMaterial::Aluminium => 0,
            TankMaterial::CarbonComposite => 1,
        }
    }

    pub fn from_index(i: usize) -> (m: Option<TankMaterial>)
        ensures
            m == tank_material_at(i as int),
    {
        match i {
            0 => Some(TankMaterial::Aluminium),
            1 => Some(TankMaterial::CarbonComposite),
            _ => None,
        }
    }

    /// Number of tank materials.
    pub fn count() -> (n: usize)
        ensures
            n == TANK_MATERIAL_COUNT,
    {
        2
    }
}

impl Default for TankMaterial {
    fn default() -> (m: Self)
        ensures
            m == TankMaterial::Aluminium,
    {
        TankMaterial::Aluminium
    }
}

/// The eight resource types of the game.
#[derive(Debug, Clone, Copy, PartialEq, Eq, Structural, Hash)]
pub enum Resource {
    Aluminium,
    Steel,
    Superalloys,
    Composites,
    Wiring,
    Electronics,
    Plumbing,
    SolidPropellant,
}

/// Number of resource types.
pub const RESOURCE_COUNT: usize = 8;

/// The resource at position `i` of the display order, if any.
pub open spec fn resource_at(i: int) -> Option<Resource> {
    if i == 0 {
        Some(Resource::Aluminium)
    } else if i == 1 {
        Some(Resource::Steel)
    } else if i == 2 {
        Some(Resource::Superalloys)
    } else if i == 3 {
        Some(Resource::Composites)
    } else if i == 4 {
        Some(Resource::Wiring)
    } else if i == 5 {
        Some(Resource::Electronics)
    } else if i == 6 {
        Some(Resource::Plumbing)
    } else if i == 7 {
        Some(Resource::SolidPropellant)
    } else {
        None
    }
}

/// Position of a resource in the display order.
pub open spec fn resource_index(r: Resource) -> int {
    match r {
        Resource::Aluminium => 0,
        Resource::Steel => 1,
        Resource::Superalloys => 2,
        Resource::Composites => 3,
        Resource::Wiring => 4,
        Resource::Electronics => 5,
        Resource::Plumbing => 6,
        Resource::SolidPropellant => 7,
    }
}

/// Display name of a resource.
pub open spec fn resource_display_name(r: Resource) -> Seq<char> {
    match r {
        Resource::Aluminium => "Aluminium"@,
        Resource::Steel => "Steel"@,
        Resource::Superalloys => "Superalloys"@,
        Resource::Composites => "Composites"@,
        Resource::Wiring => "Wiring"@,
        Resource::Electronics => "Electronics"@,
        Resource::Plumbing => "Plumbing"@,
        Resource::SolidPropellant => "Solid Propellant"@,
    }
}

/// All resource variants in display order.
pub fn all_resources() -> (v: Vec<Resource>)
    ensures
        v@.len() == RESOURCE_COUNT,
        forall|i: int| 0 <= i < RESOURCE_COUNT ==> Some(#[trigger] v@[i]) == resource_at(i),
{
    vec![
        Resource::Aluminium,
        Resource::Steel,
        Resource::Superalloys,
        Resource::Composites,
        Resource::Wiring,
        Resource::Electronics,
        Resource::Plumbing,
        Resource::SolidPropellant,
    ]
}

impl Resource {
    pub fn display_name(&self) -> (s: &'static str)
        ensures
            s@ == resource_display_name(*self),
    {
        match self {
            Resource::Aluminium => "Aluminium",
            Resource::Steel => "Steel",
            Resource::Superalloys => "Superalloys",
            Resource::Composites => "Composites",
            Resource::Wiring => "Wiring",
            Resource::Electronics => "Electronics",
            Resource::Plumbing => "Plumbing",
            Resource::SolidPropellant => "Solid Propellant",
        }
    }

    /// The resource at position `i` of the display order (`all_resources`), if any.
    pub fn from_index(i: usize) -> (r: Option<Resource>)
        ensures
            r == resource_at(i as int),
    {
        let all = all_resources();
        if i < all.len() {
            Some(all[i])
        } else {
            None
        }
    }
}

/// Index and lookup are inverse on tank materials and on resources.
pub proof fn lemma_material_and_resource_index_roundtrip(m: TankMaterial, r: Resource, i: int)
    ensures
        tank_material_at(tank_material_index(m)) == Some(m),
        0 <= i < TANK_MATERIAL_COUNT ==> tank_material_index(tank_material_at(i).unwrap()) == i,
        resource_at(resource_index(r)) == Some(r),
        0 <= i < RESOURCE_COUNT ==> resource_index(resource_at(i).unwrap()) == i,
        resource_at(i) is Some <==> 0 <= i < RESOURCE_COUNT,
        tank_material_at(i) is Some <==> 0 <= i < TANK_MATERIAL_COUNT,
{
}

} // verus!
