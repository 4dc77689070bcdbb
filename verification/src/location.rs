//! Kinds of the locations of the Earth-Moon delta-v map, and transfer animations.

use vstd::prelude::*;

use crate::text::chars_equal;

verus! {

/// Animation type for a transfer between locations.
#[derive(Debug, Clone, Copy, PartialEq, Eq, Structural)]
pub enum TransferAnimation {
    Launch,
    Landing,
}

/// Kind of a location in the delta-v graph (orbit, surface or Lagrange point).
#[derive(Debug, Clone, Copy, PartialEq, Eq, Structural)]
pub enum LocationKind {
    Surface,
    Orbit,
    LagrangePoint,
}

/// Kind of each location of the Earth-Moon map by id; `None` for an unknown id.
pub open spec fn spec_location_kind(id: Seq<char>) -> Option<LocationKind> {
    if id == "earth_surface"@ || id == "lunar_surface"@ {
        Some(LocationKind::Surface)
    } else if id == "suborbital"@ || id == "leo"@ || id == "sso"@ || id == "meo"@ || id == "gto"@
        || id == "geo"@ || id == "lunar_orbit"@ {
        Some(LocationKind::Orbit)
    } else if id == "l1"@ || id == "l2"@ {
        Some(LocationKind::LagrangePoint)
    } else {
        None
    }
}

/// The kind of the Earth-Moon map location with the given id, if there is one.
pub fn location_kind(id: &str) -> (k: Option<LocationKind>)
    ensures
        k == spec_location_kind(id@),
{
    if chars_equal(id, "earth_surface") || chars_equal(id, "lunar_surface") {
        Some(LocationKind::Surface)
    } else if chars_equal(id, "suborbital") || chars_equal(id, "leo") || chars_equal(id, "sso")
        || chars_equal(id, "meo") || chars_equal(id, "gto") || chars_equal(id, "geo")
        || chars_equal(id, "lunar_orbit") {
        Some(LocationKind::Orbit)
    } else if chars_equal(id, "l1") || chars_equal(id, "l2") {
        Some(LocationKind::LagrangePoint)
    } else {
        None
    }
}


/// A location in the delta-v graph (orbit, surface, or Lagrange point).
#[derive(Debug, Clone, Copy)]
pub struct Location {
    pub id: &'static str,
    pub display_name: &'static str,
    pub short_name: &'static str,
    pub kind: LocationKind,
    pub parent_body: &'static str,
}

/// A transfer edge in the delta-v graph; delta-v figures are whole metres per second.
#[derive(Debug, Clone, Copy)]
pub struct Transfer {
    pub from: &'static str,
    pub to: &'static str,
    pub delta_v: u32,
    pub aero_drag_loss: u32,
    pub animation: Option<TransferAnimation>,
    pub can_aerobrake: bool,
    /// Transit time in game-days for this transfer leg
    pub transit_days: u32,
}

/// Delta-v of a transfer including aerodynamic drag losses.
pub open spec fn transfer_cost(t: Transfer) -> nat {
    t.delta_v as nat + t.aero_drag_loss as nat
}

impl Transfer {
    /// Total delta-v cost including aerodynamic drag losses.
    pub fn total_delta_v(&self) -> (dv: u64)
        ensures
            dv == transfer_cost(*self),
    {
        self.delta_v as u64 + self.aero_drag_loss as u64
    }
}

/// Position of the first location with the given id, from position `i` on (the length
/// when there is none).
pub open spec fn first_index(locs: Seq<Location>, id: Seq<char>, i: int) -> int
    decreases locs.len() - i,
{
    if i < 0 || i >= locs.len() {
        locs.len() as int
    } else if locs[i].id@ == id {
        i
    } else {
        first_index(locs, id, i + 1)
    }
}

/// Whether some location has the given id.
pub open spec fn is_known(locs: Seq<Location>, id: Seq<char>) -> bool {
    exists|i: int| 0 <= i < locs.len() && (#[trigger] locs[i]).id@ == id
}

/// Whether the transfers with indices `route`, taken in order, lead from `a` to `b`
/// (the empty route leads from a location to itself).
pub open spec fn is_route(ts: Seq<Transfer>, route: Seq<int>, a: Seq<char>, b: Seq<char>) -> bool
    decreases route.len(),
{
    if route.len() == 0 {
        a == b
    } else {
        let e = route.last();
        &&& 0 <= e < ts.len()
        &&& ts[e].to@ == b
        &&& is_route(ts, route.drop_last(), a, ts[e].from@)
    }
}

/// Delta-v of a route: the sum over its transfers.
pub open spec fn route_cost(ts: Seq<Transfer>, route: Seq<int>) -> nat
    decreases route.len(),
{
    if route.len() == 0 {
        0
    } else {
        route_cost(ts, route.drop_last()) + transfer_cost(ts[route.last()])
    }
}

/// The locations a route from `a` passes: `a`, then each transfer's destination.
pub open spec fn route_stops(ts: Seq<Transfer>, route: Seq<int>, a: Seq<char>) -> Seq<Seq<char>>
    decreases route.len(),
{
    if route.len() == 0 {
        seq![a]
    } else {
        route_stops(ts, route.drop_last(), a).push(ts[route.last()].to@)
    }
}

/// The locations of the Earth-Moon map, in map order.
pub open spec fn earth_moon_locations() -> Seq<Location> {
    seq![
        Location {
            id: "earth_surface",
            display_name: "Earth Surface",
            short_name: "EARTH",
            kind: LocationKind::Surface,
            parent_body: "earth",
        },
        Location {
            id: "suborbital",
            display_name: "Suborbital",
            short_name: "SUB",
            kind: LocationKind::Orbit,
            parent_body: "earth",
        },
        Location {
            id: "leo",
            display_name: "Low Earth Orbit",
            short_name: "LEO",
            kind: LocationKind::Orbit,
            parent_body: "earth",
        },
        Location {
            id: "sso",
            display_name: "Sun-Synchronous Orbit",
            short_name: "SSO",
            kind: LocationKind::Orbit,
            parent_body: "earth",
        },
        Location {
            id: "meo",
            display_name: "Medium Earth Orbit",
            short_name: "MEO",
            kind: LocationKind::Orbit,
            parent_body: "earth",
        },
        Location {
            id: "gto",
            display_name: "Geostationary Transfer",
            short_name: "GTO",
            kind: LocationKind::Orbit,
            parent_body: "earth",
        },
        Location {
            id: "geo",
            display_name: "Geostationary Orbit",
            short_name: "GEO",
            kind: LocationKind::Orbit,
            parent_body: "earth",
        },
        Location {
            id: "l1",
            display_name: "Earth-Moon L1",
            short_name: "L1",
            kind: LocationKind::LagrangePoint,
            parent_body: "earth",
        },
        Location {
            id: "l2",
            display_name: "Earth-Moon L2",
            short_name: "L2",
            kind: LocationKind::LagrangePoint,
            parent_body: "earth",
        },
        Location {
            id: "lunar_orbit",
            display_name: "Lunar Orbit",
            short_name: "LLO",
            kind: LocationKind::Orbit,
            parent_body: "moon",
        },
        Location {
            id: "lunar_surface",
            display_name: "Lunar Surface",
            short_name: "MOON",
            kind: LocationKind::Surface,
            parent_body: "moon",
        },
        ]
}

/// The transfers of the Earth-Moon map, in map order.
pub open spec fn earth_moon_transfers() -> Seq<Transfer> {
    seq![
        Transfer {
            from: "earth_surface",
            to: "suborbital",
            delta_v: 3500,
            aero_drag_loss: 0,
            animation: Some(TransferAnimation::Launch),
            can_aerobrake: false,
            transit_days: 0,
        },
        Transfer {
            from: "earth_surface",
            to: "leo",
            delta_v: 7800,
            aero_drag_loss: 300,
            animation: Some(TransferAnimation::Launch),
            can_aerobrake: false,
            transit_days: 0,
        },
        Transfer {
            from: "leo",
            to: "sso",
            delta_v: 500,
            aero_drag_loss: 0,
            animation: None,
            can_aerobrake: false,
            transit_days: 0,
        },
        Transfer {
            from: "leo",
            to: "meo",
            delta_v: 2100,
            aero_drag_loss: 0,
            animation: None,
            can_aerobrake: false,
            transit_days: 0,
        },
        Transfer {
            from: "leo",
            to: "gto",
            delta_v: 2440,
            aero_drag_loss: 0,
            animation: None,
            can_aerobrake: false,
            transit_days: 1,
        },
        Transfer {
            from: "gto",
            to: "geo",
            delta_v: 1500,
            aero_drag_loss: 0,
            animation: None,
            can_aerobrake: false,
            transit_days: 0,
        },
        Transfer {
            from: "leo",
            to: "l1",
            delta_v: 3150,
            aero_drag_loss: 0,
            animation: None,
            can_aerobrake: false,
            transit_days: 5,
        },
        Transfer {
            from: "l1",
            to: "lunar_orbit",
            delta_v: 700,
            aero_drag_loss: 0,
            animation: None,
            can_aerobrake: false,
            transit_days: 2,
        },
        Transfer {
            from: "leo",
            to: "lunar_orbit",
            delta_v: 3850,
            aero_drag_loss: 0,
            animation: None,
            can_aerobrake: false,
            transit_days: 4,
        },
        Transfer {
            from: "lunar_orbit",
            to: "lunar_surface",
            delta_v: 1700,
            aero_drag_loss: 0,
            animation: Some(TransferAnimation::Landing),
            can_aerobrake: false,
            transit_days: 0,
        },
        Transfer {
            from: "lunar_surface",
            to: "lunar_orbit",
            delta_v: 1700,
            aero_drag_loss: 0,
            animation: Some(TransferAnimation::Launch),
            can_aerobrake: false,
            transit_days: 0,
        },
        ]
}

/// The delta-v map: a directed graph of locations connected by transfers.
pub struct DeltaVMap {
    locations: Vec<Location>,
    transfers: Vec<Transfer>,
}

/// What a delta-v map holds.
pub struct DeltaVMapView {
    pub locations: Seq<Location>,
    pub transfers: Seq<Transfer>,
}

impl View for DeltaVMap {
    type V = DeltaVMapView;

    closed spec fn view(&self) -> DeltaVMapView {
        DeltaVMapView { locations: self.locations@, transfers: self.transfers@ }
    }
}

impl DeltaVMapView {
    /// Every transfer runs between known locations.
    pub open spec fn wf(self) -> bool {
        forall|k: int|
            0 <= k < self.transfers.len() ==> is_known(self.locations, (#[trigger] self.transfers[k]).from@)
                && is_known(self.locations, self.transfers[k].to@)
    }
}

/// Position of the first transfer from `a` to `b`, from position `i` on (the length when
/// there is none).
pub open spec fn first_transfer(ts: Seq<Transfer>, a: Seq<char>, b: Seq<char>, i: int) -> int
    decreases ts.len() - i,
{
    if i < 0 || i >= ts.len() {
        ts.len() as int
    } else if ts[i].from@ == a && ts[i].to@ == b {
        i
    } else {
        first_transfer(ts, a, b, i + 1)
    }
}

/// Facts about `first_transfer`: it lands on a matching transfer, and no earlier one
/// matches.
pub proof fn lemma_first_transfer(ts: Seq<Transfer>, a: Seq<char>, b: Seq<char>, i: int)
    requires
        0 <= i <= ts.len(),
    ensures
        i <= first_transfer(ts, a, b, i) <= ts.len(),
        first_transfer(ts, a, b, i) < ts.len() ==> ts[first_transfer(ts, a, b, i)].from@ == a
            && ts[first_transfer(ts, a, b, i)].to@ == b,
        forall|j: int| i <= j < first_transfer(ts, a, b, i) ==> !(#[trigger] ts[j].from@ == a && ts[j].to@ == b),
    decreases ts.len() - i,
{
    if i < ts.len() && !(ts[i].from@ == a && ts[i].to@ == b) {
        lemma_first_transfer(ts, a, b, i + 1);
    }
}

/// Facts about `first_index`: it lands on a matching location when one exists.
pub proof fn lemma_first_index(locs: Seq<Location>, id: Seq<char>, i: int)
    requires
        0 <= i <= locs.len(),
    ensures
        i <= first_index(locs, id, i) <= locs.len(),
        first_index(locs, id, i) < locs.len() ==> locs[first_index(locs, id, i)].id@ == id,
        forall|j: int| i <= j < first_index(locs, id, i) ==> locs[j].id@ != id,
    decreases locs.len() - i,
{
    if i < locs.len() && locs[i].id@ != id {
        lemma_first_index(locs, id, i + 1);
    }
}

/// A known id is found by `first_index`.
pub proof fn lemma_known_first_index(locs: Seq<Location>, id: Seq<char>)
    ensures
        is_known(locs, id) <==> first_index(locs, id, 0) < locs.len(),
        first_index(locs, id, 0) < locs.len() ==> locs[first_index(locs, id, 0)].id@ == id,
{
    lemma_first_index(locs, id, 0);
    if is_known(locs, id) {
        let i = choose|i: int| 0 <= i < locs.len() && (#[trigger] locs[i]).id@ == id;
        assert(i >= first_index(locs, id, 0) || locs[i].id@ != id);
    }
}

/// Sum of the distance labels, counting an unreached location as one past the largest
/// finite label.
pub open spec fn label_sum(dist: Seq<Option<u64>>) -> nat
    decreases dist.len(),
{
    if dist.len() == 0 {
        0
    } else {
        label_sum(dist.drop_last()) + match dist.last() {
            Some(d) => d as nat,
            None => u64::MAX as nat + 1,
        }
    }
}

/// Lowering one label lowers the sum.
proof fn lemma_label_sum_update(dist: Seq<Option<u64>>, v: int, d: u64)
    requires
        0 <= v < dist.len(),
        match dist[v] {
            Some(old) => d < old,
            None => true,
        },
    ensures
        label_sum(dist.update(v, Some(d))) < label_sum(dist),
    decreases dist.len(),
{
    let s2 = dist.update(v, Some(d));
    if v < dist.len() - 1 {
        lemma_label_sum_update(dist.drop_last(), v, d);
        assert(s2.drop_last() =~= dist.drop_last().update(v, Some(d)));
    } else {
        assert(s2.drop_last() =~= dist.drop_last());
    }
}

/// Extending a route by one transfer.
proof fn lemma_route_push(ts: Seq<Transfer>, route: Seq<int>, a: Seq<char>, k: int)
    requires
        is_route(ts, route, a, ts[k].from@),
        0 <= k < ts.len(),
    ensures
        is_route(ts, route.push(k), a, ts[k].to@),
        route_cost(ts, route.push(k)) == route_cost(ts, route) + transfer_cost(ts[k]),
        route_stops(ts, route.push(k), a) == route_stops(ts, route, a).push(ts[k].to@),
{
    assert(route.push(k).drop_last() =~= route);
}

/// The stops of a route start at its origin and end at its destination.
proof fn lemma_route_stops(ts: Seq<Transfer>, route: Seq<int>, a: Seq<char>, b: Seq<char>)
    requires
        is_route(ts, route, a, b),
    ensures
        route_stops(ts, route, a).len() == route.len() + 1,
        route_stops(ts, route, a)[0] == a,
        route_stops(ts, route, a).last() == b,
    decreases route.len(),
{
    if route.len() > 0 {
        lemma_route_stops(ts, route.drop_last(), a, ts[route.last()].from@);
    }
}

/// Each transfer of a route leaves from one stop and arrives at the next.
pub proof fn lemma_route_steps(ts: Seq<Transfer>, route: Seq<int>, a: Seq<char>, b: Seq<char>)
    requires
        is_route(ts, route, a, b),
    ensures
        route_stops(ts, route, a).len() == route.len() + 1,
        forall|i: int|
            0 <= i < route.len() ==> 0 <= #[trigger] route[i] < ts.len() && ts[route[i]].from@
                == route_stops(ts, route, a)[i] && ts[route[i]].to@ == route_stops(ts, route, a)[i + 1],
    decreases route.len(),
{
    lemma_route_stops(ts, route, a, b);
    if route.len() > 0 {
        let r2 = route.drop_last();
        let e = route.last();
        lemma_route_steps(ts, r2, a, ts[e].from@);
        lemma_route_stops(ts, r2, a, ts[e].from@);
        let st = route_stops(ts, route, a);
        let st2 = route_stops(ts, r2, a);
        assert(st == st2.push(ts[e].to@));
        assert forall|i: int| 0 <= i < route.len() implies 0 <= #[trigger] route[i] < ts.len()
            && ts[route[i]].from@ == st[i] && ts[route[i]].to@ == st[i + 1] by {
            if i < r2.len() {
                assert(route[i] == r2[i]);
            } else {
                assert(route[i] == e);
            }
        }
    }
}

/// Number of transfers in each label's route, summed.
pub open spec fn hop_sum(routes: Seq<Vec<usize>>) -> nat
    decreases routes.len(),
{
    if routes.len() == 0 {
        0
    } else {
        hop_sum(routes.drop_last()) + routes.last()@.len()
    }
}

/// Replacing one route by a shorter one lowers the hop sum.
proof fn lemma_hop_sum_update(routes: Seq<Vec<usize>>, v: int, r: Vec<usize>)
    requires
        0 <= v < routes.len(),
        r@.len() < routes[v]@.len(),
    ensures
        hop_sum(routes.update(v, r)) < hop_sum(routes),
    decreases routes.len(),
{
    let s2 = routes.update(v, r);
    if v < routes.len() - 1 {
        lemma_hop_sum_update(routes.drop_last(), v, r);
        assert(s2.drop_last() =~= routes.drop_last().update(v, r));
    } else {
        assert(s2.drop_last() =~= routes.drop_last());
    }
}

/// Labels that no transfer can improve: from a reached location, following a transfer
/// either overflows or reaches a location whose label is cheaper, or as cheap with no
/// more transfers.
pub open spec fn labels_settled(
    locs: Seq<Location>,
    ts: Seq<Transfer>,
    dist: Seq<Option<u64>>,
    routes: Seq<Vec<usize>>,
    k: int,
) -> bool {
    let u = first_index(locs, ts[k].from@, 0);
    let v = first_index(locs, ts[k].to@, 0);
    match dist[u] {
        Some(du) => du + transfer_cost(ts[k]) > u64::MAX || match dist[v] {
            Some(dv) => dv < du + transfer_cost(ts[k]) || (dv == du + transfer_cost(ts[k])
                && routes[v]@.len() <= routes[u]@.len() + 1),
            None => false,
        },
        None => true,
    }
}

/// With settled labels and the origin at zero over the empty route, every location
/// reachable by a route of representable delta-v has a label cheaper than that route,
/// or as cheap with no more transfers.
proof fn lemma_settled_labels_bound_routes(
    locs: Seq<Location>,
    ts: Seq<Transfer>,
    dist: Seq<Option<u64>>,
    routes: Seq<Vec<usize>>,
    from: Seq<char>,
    route: Seq<int>,
    b: Seq<char>,
)
    requires
        forall|k: int|
            0 <= k < ts.len() ==> is_known(locs, (#[trigger] ts[k]).from@) && is_known(locs, ts[k].to@),
        dist.len() == locs.len(),
        routes.len() == locs.len(),
        is_known(locs, from),
        dist[first_index(locs, from, 0)] == Some(0u64),
        routes[first_index(locs, from, 0)]@.len() == 0,
        forall|k: int| 0 <= k < ts.len() ==> #[trigger] labels_settled(locs, ts, dist, routes, k),
        is_route(ts, route, from, b),
        is_known(locs, b),
        route_cost(ts, route) <= u64::MAX,
    ensures
        match dist[first_index(locs, b, 0)] {
            Some(d) => d < route_cost(ts, route) || (d == route_cost(ts, route)
                && routes[first_index(locs, b, 0)]@.len() <= route.len()),
            None => false,
        },
    decreases route.len(),
{
    lemma_known_first_index(locs, b);
    if route.len() > 0 {
        let e = route.last();
        let a2 = ts[e].from@;
        assert(is_known(locs, a2));
        assert(labels_settled(locs, ts, dist, routes, e));
        lemma_settled_labels_bound_routes(locs, ts, dist, routes, from, route.drop_last(), a2);
        lemma_known_first_index(locs, a2);
    }
}

fn copy_route(r: &Vec<usize>) -> (c: Vec<usize>)
    ensures
        c@ == r@,
{
    let mut c: Vec<usize> = Vec::new();
    let mut i: usize = 0;
    while i < r.len()
        invariant
            i <= r@.len(),
            c@ == r@.subrange(0, i as int),
        decreases r@.len() - i,
    {
        c.push(r[i]);
        i = i + 1;
    }
    c
}

/// The route, as a sequence of transfer indices (as `int`s).
pub open spec fn route_of(r: Seq<usize>) -> Seq<int> {
    r.map_values(|e: usize| e as int)
}

/// Each Earth-Moon location has the kind that `spec_location_kind` gives its id.
#[verifier::spinoff_prover]
pub proof fn lemma_earth_moon_kinds()
    ensures
        forall|i: int|
            0 <= i < earth_moon_locations().len() ==> spec_location_kind(
                (#[trigger] earth_moon_locations()[i]).id@,
            ) == Some(earth_moon_locations()[i].kind),
{
    let locs = earth_moon_locations();
    reveal_strlit("earth_surface");
    reveal_strlit("suborbital");
    reveal_strlit("leo");
    reveal_strlit("sso");
    reveal_strlit("meo");
    reveal_strlit("gto");
    reveal_strlit("geo");
    reveal_strlit("l1");
    reveal_strlit("l2");
    reveal_strlit("lunar_orbit");
    reveal_strlit("lunar_surface");
    assert(spec_location_kind(locs[0].id@) == Some(locs[0].kind)) by { assert(locs[0].id@ == "earth_surface"@); }
    assert(spec_location_kind(locs[1].id@) == Some(locs[1].kind)) by { assert(locs[1].id@ == "suborbital"@); assert("suborbital"@.len() != "earth_surface"@.len()); assert("suborbital"@.len() != "lunar_surface"@.len()); }
    assert(spec_location_kind(locs[2].id@) == Some(locs[2].kind)) by { assert(locs[2].id@ == "leo"@); }
    assert(spec_location_kind(locs[3].id@) == Some(locs[3].kind)) by { assert(locs[3].id@ == "sso"@); }
    assert(spec_location_kind(locs[4].id@) == Some(locs[4].kind)) by { assert(locs[4].id@ == "meo"@); }
    assert(spec_location_kind(locs[5].id@) == Some(locs[5].kind)) by { assert(locs[5].id@ == "gto"@); }
    assert(spec_location_kind(locs[6].id@) == Some(locs[6].kind)) by { assert(locs[6].id@ == "geo"@); }
    assert(spec_location_kind(locs[7].id@) == Some(locs[7].kind)) by { assert(locs[7].id@ == "l1"@); }
    assert(spec_location_kind(locs[8].id@) == Some(locs[8].kind)) by { assert(locs[8].id@ == "l2"@); assert("l2"@[1] != "l1"@[1]); }
    assert(spec_location_kind(locs[9].id@) == Some(locs[9].kind)) by { assert(locs[9].id@ == "lunar_orbit"@); }
    assert(spec_location_kind(locs[10].id@) == Some(locs[10].kind)) by { assert(locs[10].id@ == "lunar_surface"@); }
    assert forall|i: int| 0 <= i < locs.len() implies spec_location_kind((#[trigger] locs[i]).id@)
        == Some(locs[i].kind) by {
        if i == 0 {} else if i == 1 {} else if i == 2 {} else if i == 3 {} else if i == 4 {}
        else if i == 5 {} else if i == 6 {} else if i == 7 {} else if i == 8 {} else if i == 9 {}
        else {}
    }
}

/// Every Earth-Moon transfer runs between locations of the map.
#[verifier::spinoff_prover]
pub proof fn lemma_earth_moon_wf()
    ensures
        (DeltaVMapView { locations: earth_moon_locations(), transfers: earth_moon_transfers() }).wf(),
{
    let locs = earth_moon_locations();
    let ts = earth_moon_transfers();
    assert forall|k: int| 0 <= k < ts.len() implies is_known(locs, (#[trigger] ts[k]).from@)
        && is_known(locs, ts[k].to@) by {
        if k == 0 { assert(locs[0].id@ == ts[k].from@); assert(locs[1].id@ == ts[k].to@); }
        if k == 1 { assert(locs[0].id@ == ts[k].from@); assert(locs[2].id@ == ts[k].to@); }
        if k == 2 { assert(locs[2].id@ == ts[k].from@); assert(locs[3].id@ == ts[k].to@); }
        if k == 3 { assert(locs[2].id@ == ts[k].from@); assert(locs[4].id@ == ts[k].to@); }
        if k == 4 { assert(locs[2].id@ == ts[k].from@); assert(locs[5].id@ == ts[k].to@); }
        if k == 5 { assert(locs[5].id@ == ts[k].from@); assert(locs[6].id@ == ts[k].to@); }
        if k == 6 { assert(locs[2].id@ == ts[k].from@); assert(locs[7].id@ == ts[k].to@); }
        if k == 7 { assert(locs[7].id@ == ts[k].from@); assert(locs[9].id@ == ts[k].to@); }
        if k == 8 { assert(locs[2].id@ == ts[k].from@); assert(locs[9].id@ == ts[k].to@); }
        if k == 9 { assert(locs[9].id@ == ts[k].from@); assert(locs[10].id@ == ts[k].to@); }
        if k == 10 { assert(locs[10].id@ == ts[k].from@); assert(locs[9].id@ == ts[k].to@); }
    }
}

/// A number that tells apart the location ids of the Earth-Moon map: length and first
/// character.
spec fn id_code(s: Seq<char>) -> int {
    s.len() * 1000 + (s[0] as int)
}

/// No two transfers of the Earth-Moon map join the same two locations in the same
/// direction.
#[verifier::spinoff_prover]
pub proof fn lemma_earth_moon_no_parallel_transfers()
    ensures
        forall|j: int, k: int|
            0 <= j < earth_moon_transfers().len() && 0 <= k < earth_moon_transfers().len()
                && (#[trigger] earth_moon_transfers()[j]).from@ == (#[trigger] earth_moon_transfers()[k]).from@
                && earth_moon_transfers()[j].to@ == earth_moon_transfers()[k].to@ ==> j == k,
{
    let ts = earth_moon_transfers();
    reveal_strlit("earth_surface");
    reveal_strlit("suborbital");
    reveal_strlit("leo");
    reveal_strlit("sso");
    reveal_strlit("meo");
    reveal_strlit("gto");
    reveal_strlit("geo");
    reveal_strlit("l1");
    reveal_strlit("lunar_orbit");
    reveal_strlit("lunar_surface");
    assert(id_code(ts[0].from@) == 13101 && id_code(ts[0].to@) == 10115);
    assert(id_code(ts[1].from@) == 13101 && id_code(ts[1].to@) == 3108);
    assert(id_code(ts[2].from@) == 3108 && id_code(ts[2].to@) == 3115);
    assert(id_code(ts[3].from@) == 3108 && id_code(ts[3].to@) == 3109);
    assert(id_code(ts[4].from@) == 3108 && id_code(ts[4].to@) == 3103);
    assert(id_code(ts[5].from@) == 3103 && id_code(ts[5].to@) == 3103);
    assert(id_code(ts[6].from@) == 3108 && id_code(ts[6].to@) == 2108);
    assert(id_code(ts[7].from@) == 2108 && id_code(ts[7].to@) == 11108);
    assert(id_code(ts[8].from@) == 3108 && id_code(ts[8].to@) == 11108);
    assert(id_code(ts[9].from@) == 11108 && id_code(ts[9].to@) == 13108);
    assert(id_code(ts[10].from@) == 13108 && id_code(ts[10].to@) == 11108);
    assert forall|j: int, k: int|
        0 <= j < ts.len() && 0 <= k < ts.len() && (#[trigger] ts[j]).from@ == (#[trigger] ts[k]).from@
            && ts[j].to@ == ts[k].to@ implies j == k by {
        assert(id_code(ts[j].from@) == id_code(ts[k].from@));
        assert(id_code(ts[j].to@) == id_code(ts[k].to@));
    }
}

impl DeltaVMap {
    /// Every transfer runs between known locations.
    #[verifier::type_invariant]
    spec fn type_inv(self) -> bool {
        self@.wf()
    }

    /// The Earth-Moon delta-v graph.
    pub fn earth_moon() -> (m: Self)
        ensures
            m@.locations == earth_moon_locations(),
            m@.transfers == earth_moon_transfers(),
            forall|i: int|
                0 <= i < m@.locations.len() ==> spec_location_kind((#[trigger] m@.locations[i]).id@)
                    == Some(m@.locations[i].kind),
    {
        let locations = vec![
            Location {
                id: "earth_surface",
                display_name: "Earth Surface",
                short_name: "EARTH",
                kind: LocationKind::Surface,
                parent_body: "earth",
            },
            Location {
                id: "suborbital",
                display_name: "Suborbital",
                short_name: "SUB",
                kind: LocationKind::Orbit,
                parent_body: "earth",
            },
            Location {
                id: "leo",
                display_name: "Low Earth Orbit",
                short_name: "LEO",
                kind: LocationKind::Orbit,
                parent_body: "earth",
            },
            Location {
                id: "sso",
                display_name: "Sun-Synchronous Orbit",
                short_name: "SSO",
                kind: LocationKind::Orbit,
                parent_body: "earth",
            },
            Location {
                id: "meo",
                display_name: "Medium Earth Orbit",
                short_name: "MEO",
                kind: LocationKind::Orbit,
                parent_body: "earth",
            },
            Location {
                id: "gto",
                display_name: "Geostationary Transfer",
                short_name: "GTO",
                kind: LocationKind::Orbit,
                parent_body: "earth",
            },
            Location {
                id: "geo",
                display_name: "Geostationary Orbit",
                short_name: "GEO",
                kind: LocationKind::Orbit,
                parent_body: "earth",
            },
            Location {
                id: "l1",
                display_name: "Earth-Moon L1",
                short_name: "L1",
                kind: LocationKind::LagrangePoint,
                parent_body: "earth",
            },
            Location {
                id: "l2",
                display_name: "Earth-Moon L2",
                short_name: "L2",
                kind: LocationKind::LagrangePoint,
                parent_body: "earth",
            },
            Location {
                id: "lunar_orbit",
                display_name: "Lunar Orbit",
                short_name: "LLO",
                kind: LocationKind::Orbit,
                parent_body: "moon",
            },
            Location {
                id: "lunar_surface",
                display_name: "Lunar Surface",
                short_name: "MOON",
                kind: LocationKind::Surface,
                parent_body: "moon",
            },
        ];
        let transfers = vec![
            Transfer {
                from: "earth_surface",
                to: "suborbital",
                delta_v: 3500,
                aero_drag_loss: 0,
                animation: Some(TransferAnimation::Launch),
                can_aerobrake: false,
                transit_days: 0,
            },
            Transfer {
                from: "earth_surface",
                to: "leo",
                delta_v: 7800,
                aero_drag_loss: 300,
                animation: Some(TransferAnimation::Launch),
                can_aerobrake: false,
                transit_days: 0,
            },
            Transfer {
                from: "leo",
                to: "sso",
                delta_v: 500,
                aero_drag_loss: 0,
                animation: None,
                can_aerobrake: false,
                transit_days: 0,
            },
            Transfer {
                from: "leo",
                to: "meo",
                delta_v: 2100,
                aero_drag_loss: 0,
                animation: None,
                can_aerobrake: false,
                transit_days: 0,
            },
            Transfer {
                from: "leo",
                to: "gto",
                delta_v: 2440,
                aero_drag_loss: 0,
                animation: None,
                can_aerobrake: false,
                transit_days: 1,
            },
            Transfer {
                from: "gto",
                to: "geo",
                delta_v: 1500,
                aero_drag_loss: 0,
                animation: None,
                can_aerobrake: false,
                transit_days: 0,
            },
            Transfer {
                from: "leo",
                to: "l1",
                delta_v: 3150,
                aero_drag_loss: 0,
                animation: None,
                can_aerobrake: false,
                transit_days: 5,
            },
            Transfer {
                from: "l1",
                to: "lunar_orbit",
                delta_v: 700,
                aero_drag_loss: 0,
                animation: None,
                can_aerobrake: false,
                transit_days: 2,
            },
            Transfer {
                from: "leo",
                to: "lunar_orbit",
                delta_v: 3850,
                aero_drag_loss: 0,
                animation: None,
                can_aerobrake: false,
                transit_days: 4,
            },
            Transfer {
                from: "lunar_orbit",
                to: "lunar_surface",
                delta_v: 1700,
                aero_drag_loss: 0,
                animation: Some(TransferAnimation::Landing),
                can_aerobrake: false,
                transit_days: 0,
            },
            Transfer {
                from: "lunar_surface",
                to: "lunar_orbit",
                delta_v: 1700,
                aero_drag_loss: 0,
                animation: Some(TransferAnimation::Launch),
                can_aerobrake: false,
                transit_days: 0,
            },
        ];
        proof {
            assert(locations@ =~= earth_moon_locations());
            assert(transfers@ =~= earth_moon_transfers());
        }
        let m = DeltaVMap { locations, transfers };
        proof {
            lemma_earth_moon_kinds();
            lemma_earth_moon_wf();
        }
        m
    }

    /// Position of the first location with the given id, if any.
    fn index_of(&self, id: &str) -> (r: Option<usize>)
        ensures
            match r {
                Some(i) => i == first_index(self@.locations, id@, 0) && i < self@.locations.len(),
                None => first_index(self@.locations, id@, 0) == self@.locations.len(),
            },
            r is Some <==> is_known(self@.locations, id@),
    {
        proof {
            lemma_known_first_index(self@.locations, id@);
            lemma_first_index(self@.locations, id@, 0);
        }
        let mut i: usize = 0;
        while i < self.locations.len()
            invariant
                i <= self@.locations.len(),
                self@.locations == self.locations@,
                forall|j: int| 0 <= j < i ==> self@.locations[j].id@ != id@,
                i <= first_index(self@.locations, id@, 0),
                first_index(self@.locations, id@, 0) <= self@.locations.len(),
                first_index(self@.locations, id@, 0) < self@.locations.len() ==> self@.locations[first_index(self@.locations, id@, 0)].id@ == id@,
            decreases self@.locations.len() - i,
        {
            if crate::text::chars_equal(self.locations[i].id, id) {
                proof {
                    assert(self@.locations[i as int].id@ == id@);
                    lemma_first_index(self@.locations, id@, 0);
                    if (i as int) < first_index(self@.locations, id@, 0) {
                        assert(self@.locations[i as int].id@ != id@);
                    }
                }
                return Some(i);
            }
            i = i + 1;
        }
        None
    }

    /// Look up a location by id.
    pub fn location(&self, id: &str) -> (l: Option<&Location>)
        ensures
            match l {
                Some(loc) => is_known(self@.locations, id@) && *loc == self@.locations[first_index(self@.locations, id@, 0)],
                None => !is_known(self@.locations, id@),
            },
    {
        match self.index_of(id) {
            Some(i) => Some(&self.locations[i]),
            None => None,
        }
    }

    /// All locations.
    pub fn locations(&self) -> (v: &Vec<Location>)
        ensures
            v@ == self@.locations,
    {
        &self.locations
    }

    /// All transfers originating from a location, in map order.
    pub fn transfers_from(&self, id: &str) -> (v: Vec<&Transfer>)
        ensures
            exists|picked: Seq<int>|
                #![trigger picked.len()]
                picked.len() == v@.len()
                && (forall|a: int, b: int| 0 <= a < b < picked.len() ==> picked[a] < picked[b])
                && (forall|a: int| 0 <= a < picked.len() ==> 0 <= #[trigger] picked[a] < self@.transfers.len() && *v@[a] == self@.transfers[picked[a]])
                && (forall|k: int| 0 <= k < self@.transfers.len() ==> (self@.transfers[k].from@ == id@ <==> exists|a: int| 0 <= a < picked.len() && picked[a] == k)),
    {
        let mut v: Vec<&Transfer> = Vec::new();
        let ghost mut picked: Seq<int> = Seq::empty();
        let mut k: usize = 0;
        while k < self.transfers.len()
            invariant
                k <= self@.transfers.len(),
                self@.transfers == self.transfers@,
                picked.len() == v@.len(),
                forall|a: int, b: int| 0 <= a < b < picked.len() ==> picked[a] < picked[b],
                forall|a: int| 0 <= a < picked.len() ==> 0 <= #[trigger] picked[a] < k && *v@[a] == self@.transfers[picked[a]],
                forall|j: int| 0 <= j < k ==> (self@.transfers[j].from@ == id@ <==> exists|a: int| 0 <= a < picked.len() && picked[a] == j),
            decreases self@.transfers.len() - k,
        {
            if crate::text::chars_equal(self.transfers[k].from, id) {
                v.push(&self.transfers[k]);
                proof {
                    let old_picked = picked;
                    picked = picked.push(k as int);
                    assert forall|j: int| 0 <= j < k + 1 implies (self@.transfers[j].from@ == id@ <==> exists|a: int| 0 <= a < picked.len() && picked[a] == j) by {
                        if j < k {
                            if exists|a: int| 0 <= a < old_picked.len() && old_picked[a] == j {
                                let a = choose|a: int| 0 <= a < old_picked.len() && old_picked[a] == j;
                                assert(picked[a] == j);
                            }
                            if exists|a: int| 0 <= a < picked.len() && picked[a] == j {
                                let a = choose|a: int| 0 <= a < picked.len() && picked[a] == j;
                                assert(a < old_picked.len());
                                assert(old_picked[a] == j);
                            }
                        } else {
                            assert(picked[old_picked.len() as int] == j);
                        }
                    }
                }
            } else {
                proof {
                    assert forall|j: int| 0 <= j < k + 1 implies (self@.transfers[j].from@ == id@ <==> exists|a: int| 0 <= a < picked.len() && picked[a] == j) by {
                        if j == k {
                            if exists|a: int| 0 <= a < picked.len() && picked[a] == j {
                                let a = choose|a: int| 0 <= a < picked.len() && picked[a] == j;
                            }
                        }
                    }
                }
            }
            k = k + 1;
        }
        v
    }

    /// The first direct transfer between two locations, if one exists.
    pub fn transfer(&self, from: &str, to: &str) -> (t: Option<&Transfer>)
        ensures
            match t {
                Some(tr) => first_transfer(self@.transfers, from@, to@, 0) < self@.transfers.len()
                    && *tr == self@.transfers[first_transfer(self@.transfers, from@, to@, 0)],
                None => first_transfer(self@.transfers, from@, to@, 0) == self@.transfers.len(),
            },
    {
        proof {
            lemma_first_transfer(self@.transfers, from@, to@, 0);
        }
        let mut k: usize = 0;
        while k < self.transfers.len()
            invariant
                k <= self@.transfers.len(),
                self@.transfers == self.transfers@,
                forall|j: int| 0 <= j < k ==> !(self@.transfers[j].from@ == from@ && self@.transfers[j].to@ == to@),
                k <= first_transfer(self@.transfers, from@, to@, 0) <= self@.transfers.len(),
                first_transfer(self@.transfers, from@, to@, 0) < self@.transfers.len() ==> {
                    let f = first_transfer(self@.transfers, from@, to@, 0);
                    self@.transfers[f].from@ == from@ && self@.transfers[f].to@ == to@
                },
            decreases self@.transfers.len() - k,
        {
            if crate::text::chars_equal(self.transfers[k].from, from) && crate::text::chars_equal(self.transfers[k].to, to) {
                proof {
                    lemma_first_transfer(self@.transfers, from@, to@, 0);
                    if (k as int) < first_transfer(self@.transfers, from@, to@, 0) {
                        assert(!(self@.transfers[k as int].from@ == from@ && self@.transfers[k as int].to@ == to@));
                    }
                }
                return Some(&self.transfers[k]);
            }
            k = k + 1;
        }
        None
    }

    /// Number of locations in the map.
    pub fn location_count(&self) -> (n: usize)
        ensures
            n == self@.locations.len(),
    {
        self.locations.len()
    }

    /// The location at a position (for script iteration).
    pub fn location_at(&self, index: usize) -> (l: Option<&Location>)
        ensures
            index < self@.locations.len() ==> l == Some(&self@.locations[index as int]),
            index >= self@.locations.len() ==> l is None,
    {
        if index < self.locations.len() {
            Some(&self.locations[index])
        } else {
            None
        }
    }

    /// Cheapest route between two locations: the location ids it passes and its total
    /// delta-v. Among routes of equal delta-v, one with the fewest transfers is taken.
    /// `None` when either location is unknown or no route of representable delta-v leads
    /// from one to the other.
    pub fn shortest_path(&self, from: &str, to: &str) -> (r: Option<(Vec<&'static str>, u64)>)
        ensures
            match r {
                Some((path, dv)) => {
                    &&& is_known(self@.locations, from@)
                    &&& is_known(self@.locations, to@)
                    &&& exists|route: Seq<int>| #[trigger] is_route(self@.transfers, route, from@, to@)
                        && route_cost(self@.transfers, route) == dv
                        && path@.len() == route.len() + 1
                        && forall|i: int| 0 <= i < path@.len() ==> (#[trigger] path@[i])@ == route_stops(self@.transfers, route, from@)[i]
                    &&& forall|route: Seq<int>| #[trigger] is_route(self@.transfers, route, from@, to@) ==> dv <= route_cost(self@.transfers, route)
                    &&& forall|route: Seq<int>| #[trigger] is_route(self@.transfers, route, from@, to@)
                        && route_cost(self@.transfers, route) == dv ==> path@.len() <= route.len() + 1
                },
                None => !is_known(self@.locations, from@) || !is_known(self@.locations, to@) || forall|route: Seq<int>|
                    #[trigger] is_route(self@.transfers, route, from@, to@) ==> route_cost(self@.transfers, route) > u64::MAX,
            },
    {
        proof {
            use_type_invariant(self);
        }
        let from_idx = match self.index_of(from) {
            Some(i) => i,
            None => return None,
        };
        let to_idx = match self.index_of(to) {
            Some(i) => i,
            None => return None,
        };
        let ghost locs = self@.locations;
        let ghost ts = self@.transfers;
        proof {
            lemma_known_first_index(locs, from@);
            lemma_known_first_index(locs, to@);
        }
        let n = self.locations.len();
        let m = self.transfers.len();
        // Endpoint positions of every transfer.
        let mut ends: Vec<(usize, usize)> = Vec::new();
        let mut k: usize = 0;
        while k < m
            invariant
                k <= m,
                m == ts.len(),
                n == locs.len(),
                locs == self@.locations,
                ts == self@.transfers,
                self@.wf(),
                ends@.len() == k,
                forall|j: int| 0 <= j < k ==> (#[trigger] ends@[j]).0 == first_index(locs, ts[j].from@, 0) && ends@[j].1 == first_index(locs, ts[j].to@, 0) && ends@[j].0 < n && ends@[j].1 < n,
            decreases m - k,
        {
            let t = self.transfers[k];
            let u = match self.index_of(t.from) {
                Some(i) => i,
                None => 0,
            };
            let v = match self.index_of(t.to) {
                Some(i) => i,
                None => 0,
            };
            proof {
                assert(is_known(locs, ts[k as int].from@));
                assert(is_known(locs, ts[k as int].to@));
            }
            ends.push((u, v));
            k = k + 1;
        }
        // Distance labels and the routes that achieve them.
        let mut dist: Vec<Option<u64>> = Vec::new();
        let mut routes: Vec<Vec<usize>> = Vec::new();
        let mut i: usize = 0;
        while i < n
            invariant
                i <= n,
                dist@.len() == i,
                routes@.len() == i,
                forall|j: int| 0 <= j < i ==> (#[trigger] dist@[j]) == (if j == from_idx { Some(0u64) } else { None }),
                forall|j: int| 0 <= j < i ==> (#[trigger] routes@[j])@.len() == 0,
            decreases n - i,
        {
            if i == from_idx {
                dist.push(Some(0));
            } else {
                dist.push(None);
            }
            routes.push(Vec::new());
            i = i + 1;
        }
        let mut changed = true;
        while changed
            invariant
                n == locs.len(),
                m == ts.len(),
                locs == self@.locations,
                ts == self@.transfers,
                self@.wf(),
                from_idx < n,
                from_idx == first_index(locs, from@, 0),
                locs[from_idx as int].id@ == from@,
                ends@.len() == m,
                forall|j: int| 0 <= j < m ==> (#[trigger] ends@[j]).0 == first_index(locs, ts[j].from@, 0) && ends@[j].1 == first_index(locs, ts[j].to@, 0) && ends@[j].0 < n && ends@[j].1 < n,
                dist@.len() == n,
                routes@.len() == n,
                dist@[from_idx as int] == Some(0u64),
                routes@[from_idx as int]@.len() == 0,
                forall|v: int| 0 <= v < n ==> match #[trigger] dist@[v] {
                    Some(d) => is_route(ts, route_of(routes@[v]@), from@, locs[v].id@) && route_cost(ts, route_of(routes@[v]@)) == d,
                    None => true,
                },
                !changed ==> forall|j: int| 0 <= j < m ==> #[trigger] labels_settled(locs, ts, dist@, routes@, j),
            decreases label_sum(dist@), hop_sum(routes@), if changed { 1int } else { 0int },
        {
            changed = false;
            let ghost start = dist@;
            let ghost start_routes = routes@;
            let mut k: usize = 0;
            while k < m
                invariant
                    n == locs.len(),
                    m == ts.len(),
                    locs == self@.locations,
                    ts == self@.transfers,
                    from_idx < n,
                    locs[from_idx as int].id@ == from@,
                    ends@.len() == m,
                    forall|j: int| 0 <= j < m ==> (#[trigger] ends@[j]).0 == first_index(locs, ts[j].from@, 0) && ends@[j].1 == first_index(locs, ts[j].to@, 0) && ends@[j].0 < n && ends@[j].1 < n,
                    k <= m,
                    dist@.len() == n,
                    routes@.len() == n,
                    dist@[from_idx as int] == Some(0u64),
                    routes@[from_idx as int]@.len() == 0,
                    forall|v: int| 0 <= v < n ==> match #[trigger] dist@[v] {
                        Some(d) => is_route(ts, route_of(routes@[v]@), from@, locs[v].id@) && route_cost(ts, route_of(routes@[v]@)) == d,
                        None => true,
                    },
                    !changed ==> dist@ == start && routes@ == start_routes,
                    changed ==> label_sum(dist@) < label_sum(start) || (label_sum(dist@) == label_sum(start)
                        && hop_sum(routes@) < hop_sum(start_routes)),
                    !changed ==> forall|j: int| 0 <= j < k ==> #[trigger] labels_settled(locs, ts, dist@, routes@, j),
                decreases m - k,
            {
                let (u, v) = ends[k];
                let t = self.transfers[k];
                if let Some(du) = dist[u] {
                    let w = t.total_delta_v();
                    if let Some(nd) = du.checked_add(w) {
                        let better = match dist[v] {
                            Some(dv) => nd < dv || (nd == dv && routes[v].len() > 0
                                && routes[u].len() < routes[v].len() - 1),
                            None => true,
                        };
                        if better {
                            proof {
                                lemma_known_first_index(locs, ts[k as int].from@);
                                lemma_known_first_index(locs, ts[k as int].to@);
                                assert(is_known(locs, ts[k as int].from@));
                                assert(is_known(locs, ts[k as int].to@));
                                lemma_route_push(ts, route_of(routes@[u as int]@), from@, k as int);
                            }
                            let mut r = copy_route(&routes[u]);
                            r.push(k);
                            proof {
                                assert(route_of(r@) =~= route_of(routes@[u as int]@).push(k as int));
                                match dist@[v as int] {
                                    Some(dv) => {
                                        if nd < dv {
                                            lemma_label_sum_update(dist@, v as int, nd);
                                        } else {
                                            assert(dist@.update(v as int, Some(nd)) =~= dist@);
                                            lemma_hop_sum_update(routes@, v as int, r);
                                        }
                                    },
                                    None => {
                                        lemma_label_sum_update(dist@, v as int, nd);
                                    },
                                }
                            }
                            dist.set(v, Some(nd));
                            routes.set(v, r);
                            changed = true;
                            proof {
                                if v == from_idx {
                                    assert(false);
                                }
                            }
                        } else {
                            proof {
                                assert(labels_settled(locs, ts, dist@, routes@, k as int));
                            }
                        }
                    } else {
                        proof {
                            assert(labels_settled(locs, ts, dist@, routes@, k as int));
                        }
                    }
                } else {
                    proof {
                        assert(labels_settled(locs, ts, dist@, routes@, k as int));
                    }
                }
                k = k + 1;
            }
        }
        let final_dist = dist[to_idx];
        proof {
            lemma_known_first_index(locs, to@);
            lemma_known_first_index(locs, from@);
        }
        match final_dist {
            None => {
                proof {
                    assert forall|route: Seq<int>| #[trigger] is_route(ts, route, from@, to@) implies route_cost(ts, route) > u64::MAX by {
                        if route_cost(ts, route) <= u64::MAX {
                            lemma_settled_labels_bound_routes(locs, ts, dist@, routes@, from@, route, to@);
                        }
                    }
                }
                None
            },
            Some(d) => {
                let ghost best = route_of(routes@[to_idx as int]@);
                let mut path: Vec<&'static str> = Vec::new();
                path.push(self.locations[from_idx].id);
                let r = &routes[to_idx];
                let mut j: usize = 0;
                proof {
                    lemma_route_stops(ts, best, from@, to@);
                }
                while j < r.len()
                    invariant
                        j <= r@.len(),
                        to_idx < locs.len(),
                        locs == self@.locations,
                        best == route_of(r@),
                        is_route(ts, best, from@, locs[to_idx as int].id@),
                        ts == self@.transfers,
                        path@.len() == j + 1,
                        route_stops(ts, best.subrange(0, j as int), from@).len() == j + 1,
                        forall|i: int| 0 <= i < path@.len() ==> (#[trigger] path@[i])@ == route_stops(ts, best.subrange(0, j as int), from@)[i],
                    decreases r@.len() - j,
                {
                    proof {
                        route_prefix_is_route(ts, best, from@, locs[to_idx as int].id@, j + 1);
                    }
                    let e = r[j];
                    let ghost old_path = path@;
                    path.push(self.transfers[e].to);
                    proof {
                        let x = best.subrange(0, j + 1);
                        let p = best.subrange(0, j as int);
                        assert(x.drop_last() =~= p);
                        assert(x.last() == e as int);
                        let s = route_stops(ts, x, from@);
                        assert(s == route_stops(ts, p, from@).push(ts[e as int].to@));
                        assert(s.len() == j + 2);
                        assert forall|i: int| 0 <= i < path@.len() implies (#[trigger] path@[i])@ == s[i] by {
                            if i < old_path.len() {
                                assert(path@[i] == old_path[i]);
                            } else {
                                assert(path@[i] == self.transfers@[e as int].to);
                            }
                        }
                    }
                    j = j + 1;
                }
                proof {
                    assert(best.subrange(0, j as int) =~= best);
                    assert forall|route: Seq<int>| #[trigger] is_route(ts, route, from@, to@) implies d <= route_cost(ts, route)
                        && (route_cost(ts, route) == d ==> path@.len() <= route.len() + 1) by {
                        if route_cost(ts, route) <= u64::MAX {
                            lemma_settled_labels_bound_routes(locs, ts, dist@, routes@, from@, route, to@);
                        }
                    }
                }
                Some((path, d))
            },
        }
    }
}

/// A prefix of a route is a route to where its last transfer arrives.
proof fn route_prefix_is_route(ts: Seq<Transfer>, route: Seq<int>, a: Seq<char>, b: Seq<char>, n: int)
    requires
        is_route(ts, route, a, b),
        1 <= n <= route.len(),
    ensures
        0 <= route[n - 1] < ts.len(),
        is_route(ts, route.subrange(0, n), a, ts[route[n - 1]].to@),
    decreases route.len() - n,
{
    if n < route.len() {
        route_prefix_is_route(ts, route.drop_last(), a, ts[route.last()].from@, n);
        assert(route.drop_last().subrange(0, n) =~= route.subrange(0, n));
    } else {
        assert(route.subrange(0, n) =~= route);
    }
}

} // verus!
