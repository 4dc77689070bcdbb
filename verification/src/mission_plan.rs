//! Mission plans: the cheapest route of the Earth-Moon map cut into transfer legs.

use vstd::prelude::*;

use crate::location::{
    earth_moon_locations, earth_moon_transfers, first_transfer, is_known, is_route,
    lemma_earth_moon_no_parallel_transfers, lemma_first_transfer, lemma_route_steps, location_kind, route_cost, route_stops,
    spec_location_kind, transfer_cost, DeltaVMap, LocationKind, Transfer, TransferAnimation,
};

verus! {

/// A single leg of a multi-leg mission; delta-v in whole metres per second.
#[derive(Debug, Clone)]
pub struct MissionLeg {
    pub from: &'static str,
    pub to: &'static str,
    pub delta_v_required: u64,
    pub animation: Option<TransferAnimation>,
    pub can_aerobrake: bool,
    /// Which stages to burn on this leg. None = auto-assign.
    pub stages_to_burn: Option<Vec<usize>>,
    /// Whether to refuel from a depot at `from` before this leg.
    pub refuel_before: bool,
    /// Transit time in game-days for this leg
    pub transit_days: u32,
}

/// A complete mission plan decomposed into sequential transfer legs.
#[derive(Debug, Clone)]
pub struct MissionPlan {
    pub legs: Vec<MissionLeg>,
    pub total_delta_v: u64,
}

/// The leg that flies transfer `t`, with automatic staging and no refuelling.
pub open spec fn leg_flies(leg: MissionLeg, t: Transfer) -> bool {
    &&& leg.from@ == t.from@
    &&& leg.to@ == t.to@
    &&& leg.delta_v_required == transfer_cost(t)
    &&& leg.animation == t.animation
    &&& leg.can_aerobrake == t.can_aerobrake
    &&& leg.stages_to_burn is None
    &&& !leg.refuel_before
    &&& leg.transit_days == t.transit_days
}

/// Each leg flies the first transfer of the Earth-Moon map between two consecutive stops
/// of the route from `from`.
pub open spec fn legs_follow(legs: Seq<MissionLeg>, route: Seq<int>, from: Seq<char>) -> bool {
    let ts = earth_moon_transfers();
    let stops = route_stops(ts, route, from);
    &&& legs.len() == route.len()
    &&& forall|i: int|
        0 <= i < legs.len() ==> leg_flies(
            #[trigger] legs[i],
            ts[first_transfer(ts, stops[i], stops[i + 1], 0)],
        )
}

/// Delta-v over a list of legs.
pub open spec fn legs_delta_v(legs: Seq<MissionLeg>) -> nat
    decreases legs.len(),
{
    if legs.len() == 0 {
        0
    } else {
        legs_delta_v(legs.drop_last()) + legs.last().delta_v_required as nat
    }
}

/// Legs that fly the transfers of a route one for one carry the route's delta-v.
proof fn lemma_legs_delta_v_of_route(legs: Seq<MissionLeg>, ts: Seq<Transfer>, route: Seq<int>)
    requires
        legs.len() == route.len(),
        forall|i: int|
            0 <= i < legs.len() ==> (#[trigger] legs[i]).delta_v_required == transfer_cost(ts[route[i]]),
    ensures
        legs_delta_v(legs) == route_cost(ts, route),
    decreases legs.len(),
{
    if legs.len() > 0 {
        let l2 = legs.drop_last();
        let r2 = route.drop_last();
        assert forall|i: int| 0 <= i < l2.len() implies (#[trigger] l2[i]).delta_v_required == transfer_cost(
            ts[r2[i]],
        ) by {
            assert(l2[i] == legs[i]);
            assert(r2[i] == route[i]);
        }
        lemma_legs_delta_v_of_route(l2, ts, r2);
        assert(legs.last() == legs[legs.len() - 1]);
    }
}

/// Transit days of the legs from position `start` on.
pub open spec fn transit_days_from(legs: Seq<MissionLeg>, start: int) -> nat
    decreases legs.len() - start,
{
    if start < 0 || start >= legs.len() {
        0
    } else {
        legs[start].transit_days as nat + transit_days_from(legs, start + 1)
    }
}

/// Transit days of the leg at position `i`, zero past the last leg.
pub open spec fn leg_transit_days(legs: Seq<MissionLeg>, i: int) -> u32 {
    if 0 <= i < legs.len() {
        legs[i].transit_days
    } else {
        0
    }
}

/// Later suffixes of the legs hold no more transit days than earlier ones.
pub proof fn lemma_transit_days_from_bounded(legs: Seq<MissionLeg>, a: int, b: int)
    requires
        0 <= a <= b,
    ensures
        transit_days_from(legs, b) <= transit_days_from(legs, a),
    decreases b - a,
{
    if a < b {
        lemma_transit_days_from_bounded(legs, a + 1, b);
    }
}

/// Transit days of the legs from position `start` on, when they fit in a `u32`.
pub fn sum_transit_days(legs: &Vec<MissionLeg>, start: usize) -> (n: u32)
    requires
        transit_days_from(legs@, start as int) <= u32::MAX,
    ensures
        n == transit_days_from(legs@, start as int),
{
    let mut total: u32 = 0;
    let mut i: usize = legs.len();
    if start >= legs.len() {
        return 0;
    }
    while i > start
        invariant
            start <= i <= legs@.len(),
            total == transit_days_from(legs@, i as int),
            transit_days_from(legs@, start as int) <= u32::MAX,
        decreases i,
    {
        proof {
            lemma_transit_days_from_bounded(legs@, start as int, i - 1);
        }
        i = i - 1;
        total = total + legs[i].transit_days;
    }
    total
}

impl MissionPlan {
    /// The mission plan along the cheapest route of the Earth-Moon map between two
    /// locations (fewest transfers among equally cheap ones): one leg per transfer, each
    /// flying the first transfer between its two locations, and the route's total
    /// delta-v, which the legs' delta-v add up to. `None` when no such route exists.
    pub fn from_shortest_path(from: &str, to: &str) -> (p: Option<Self>)
        ensures
            match p {
                Some(plan) => {
                    let ts = earth_moon_transfers();
                    &&& is_known(earth_moon_locations(), from@)
                    &&& is_known(earth_moon_locations(), to@)
                    &&& exists|route: Seq<int>|
                        #[trigger] is_route(ts, route, from@, to@)
                            && route_cost(ts, route) == plan.total_delta_v
                            && legs_follow(plan.legs@, route, from@)
                            && forall|other: Seq<int>| #[trigger] is_route(ts, other, from@, to@)
                                && route_cost(ts, other) == plan.total_delta_v ==> route.len() <= other.len()
                    &&& forall|route: Seq<int>|
                        #[trigger] is_route(ts, route, from@, to@) ==> plan.total_delta_v <= route_cost(ts, route)
                    &&& legs_delta_v(plan.legs@) == plan.total_delta_v
                },
                None => !is_known(earth_moon_locations(), from@) || !is_known(earth_moon_locations(), to@)
                    || forall|route: Seq<int>|
                    #[trigger] is_route(earth_moon_transfers(), route, from@, to@) ==> route_cost(
                        earth_moon_transfers(),
                        route,
                    ) > u64::MAX,
            },
    {
        let map = DeltaVMap::earth_moon();
        let (path, total_delta_v) = match map.shortest_path(from, to) {
            Some(found) => found,
            None => return None,
        };
        let ghost ts = earth_moon_transfers();
        let ghost route = choose|route: Seq<int>|
            #[trigger] is_route(ts, route, from@, to@) && route_cost(ts, route) == total_delta_v
                && path@.len() == route.len() + 1 && forall|i: int|
                0 <= i < path@.len() ==> (#[trigger] path@[i])@ == route_stops(ts, route, from@)[i];
        let ghost stops = route_stops(ts, route, from@);
        proof {
            lemma_route_steps(ts, route, from@, to@);
        }
        let mut legs: Vec<MissionLeg> = Vec::new();
        let steps = path.len() - 1;
        let mut i: usize = 0;
        while i < steps
            invariant
                steps == route.len(),
                map@.transfers == ts,
                path@.len() == route.len() + 1,
                stops.len() == route.len() + 1,
                forall|j: int| 0 <= j < path@.len() ==> (#[trigger] path@[j])@ == stops[j],
                forall|j: int|
                    0 <= j < route.len() ==> 0 <= #[trigger] route[j] < ts.len() && ts[route[j]].from@
                        == stops[j] && ts[route[j]].to@ == stops[j + 1],
                i <= route.len(),
                legs@.len() == i,
                forall|j: int|
                    0 <= j < i ==> leg_flies(
                        #[trigger] legs@[j],
                        ts[first_transfer(ts, stops[j], stops[j + 1], 0)],
                    ),
            decreases steps - i,
        {
            let a = path[i];
            let b = path[i + 1];
            proof {
                lemma_first_transfer(ts, stops[i as int], stops[i + 1], 0);
                assert(ts[route[i as int]].from@ == stops[i as int]);
                if first_transfer(ts, stops[i as int], stops[i + 1], 0) > route[i as int] {
                    assert(!(ts[route[i as int]].from@ == stops[i as int] && ts[route[i as int]].to@
                        == stops[i + 1]));
                }
            }
            let t = match map.transfer(a, b) {
                Some(t) => t,
                None => {
                    return None;
                },
            };
            legs.push(
                MissionLeg {
                    from: a,
                    to: b,
                    delta_v_required: t.total_delta_v(),
                    animation: t.animation,
                    can_aerobrake: t.can_aerobrake,
                    stages_to_burn: None,
                    refuel_before: false,
                    transit_days: t.transit_days,
                },
            );
            i = i + 1;
        }
        proof {
            lemma_earth_moon_no_parallel_transfers();
            assert forall|i: int| 0 <= i < legs@.len() implies (#[trigger] legs@[i]).delta_v_required
                == transfer_cost(ts[route[i]]) by {
                let f = first_transfer(ts, stops[i], stops[i + 1], 0);
                lemma_first_transfer(ts, stops[i], stops[i + 1], 0);
                if f < route[i] {
                    assert(ts[f].from@ == ts[route[i]].from@ && ts[f].to@ == ts[route[i]].to@);
                } else if f > route[i] {
                    assert(!(ts[route[i]].from@ == stops[i] && ts[route[i]].to@ == stops[i + 1]));
                }
            }
            lemma_legs_delta_v_of_route(legs@, ts, route);
        }
        Some(MissionPlan { legs, total_delta_v })
    }

    /// Number of legs.
    pub fn leg_count(&self) -> (n: usize)
        ensures
            n == self.legs@.len(),
    {
        self.legs.len()
    }

    /// Total transit time across all legs in game-days.
    pub fn total_transit_days(&self) -> (n: u32)
        requires
            transit_days_from(self.legs@, 0) <= u32::MAX,
        ensures
            n == transit_days_from(self.legs@, 0),
    {
        sum_transit_days(&self.legs, 0)
    }
}

/// Check if a leg departs from a surface location (has gravity losses).
pub fn is_surface_departure(from: &str) -> (b: bool)
    ensures
        b == (spec_location_kind(from@) == Some(LocationKind::Surface)),
{
    match location_kind(from) {
        Some(LocationKind::Surface) => true,
        _ => false,
    }
}

} // verus!
