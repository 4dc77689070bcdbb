//! Contract identifiers, statuses and destination names.

use vstd::prelude::*;

use crate::text::chars_equal;

verus! {

/// Unique identifier for a contract.
#[derive(Debug, Clone, Copy, PartialEq, Eq, Structural, Hash)]
pub struct ContractId(pub u64);

/// Status of a contract.
#[derive(Debug, Clone)]
pub enum ContractStatus {
    /// On the market, available for the player to accept.
    Available,
    /// Accepted by the player, awaiting launch.
    Accepted,
    /// Successfully delivered.
    Completed,
    /// Launch failed.
    Failed { reason: String },
    /// Deadline passed without successful launch.
    Expired,
}

/// Display name of a contract destination: the destinations' short names, and the
/// location id itself for any other location.
pub open spec fn spec_destination_display_name(location_id: Seq<char>) -> Seq<char> {
    if location_id == "leo"@ {
        "LEO"@
    } else if location_id == "sso"@ {
        "SSO"@
    } else if location_id == "meo"@ {
        "MEO"@
    } else if location_id == "gto"@ {
        "GTO"@
    } else if location_id == "geo"@ {
        "GEO"@
    } else if location_id == "l1"@ {
        "L1"@
    } else if location_id == "l2"@ {
        "L2"@
    } else if location_id == "lunar_orbit"@ {
        "Lunar Orbit"@
    } else if location_id == "lunar_surface"@ {
        "Lunar Surface"@
    } else {
        location_id
    }
}

/// The display name for a contract destination location id.
pub fn destination_display_name<'a>(location_id: &'a str) -> (s: &'a str)
    ensures
        s@ == spec_destination_display_name(location_id@),
{
    if chars_equal(location_id, "leo") {
        "LEO"
    } else if chars_equal(location_id, "sso") {
        "SSO"
    } else if chars_equal(location_id, "meo") {
        "MEO"
    } else if chars_equal(location_id, "gto") {
        "GTO"
    } else if chars_equal(location_id, "geo") {
        "GEO"
    } else if chars_equal(location_id, "l1") {
        "L1"
    } else if chars_equal(location_id, "l2") {
        "L2"
    } else if chars_equal(location_id, "lunar_orbit") {
        "Lunar Orbit"
    } else if chars_equal(location_id, "lunar_surface") {
        "Lunar Surface"
    } else {
        location_id
    }
}

} // verus!
