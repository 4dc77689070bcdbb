//! Launch manifest: the payloads (contracts and/or depots) to deliver on one launch,
//! possibly to several destinations, and the order in which those destinations are
//! reached going outward from Earth.

use vstd::prelude::*;

use crate::location::{
    earth_moon_locations, earth_moon_transfers, is_known, is_route, route_cost, DeltaVMap,
};
use crate::text::chars_equal;

verus! {

/// A single entry in the launch manifest: what it carries and where it is dropped off.
#[derive(Debug, Clone)]
pub struct ManifestEntry<P> {
    pub entry_id: u32,
    /// What the entry carries (a contract satellite or a depot, with its mass)
    pub payload: P,
    /// Location id for drop-off
    pub destination: String,
    /// Display name of the destination for the UI
    pub destination_display: String,
}

/// A collection of payloads to be launched together.
#[derive(Debug, Clone)]
pub struct Manifest<P> {
    pub entries: Vec<ManifestEntry<P>>,
    next_entry_id: u32,
}

/// What a manifest holds.
pub struct ManifestView<P> {
    pub entries: Seq<ManifestEntry<P>>,
    /// Entry id the next added entry gets
    pub next_entry_id: nat,
}

impl<P> View for Manifest<P> {
    type V = ManifestView<P>;

    closed spec fn view(&self) -> ManifestView<P> {
        ManifestView { entries: self.entries@, next_entry_id: self.next_entry_id as nat }
    }
}

/// The entries bound for `dest`, in manifest order.
pub open spec fn entries_to<P>(entries: Seq<ManifestEntry<P>>, dest: Seq<char>) -> Seq<ManifestEntry<P>>
    decreases entries.len(),
{
    if entries.len() == 0 {
        seq![]
    } else {
        let rest = entries_to(entries.drop_last(), dest);
        if entries.last().destination@ == dest {
            rest.push(entries.last())
        } else {
            rest
        }
    }
}

/// Position of the first entry with the given id, from position `i` on (the length when
/// there is none).
pub open spec fn entry_index<P>(entries: Seq<ManifestEntry<P>>, id: u32, i: int) -> int
    decreases entries.len() - i,
{
    if i < 0 || i >= entries.len() {
        entries.len() as int
    } else if entries[i].entry_id == id {
        i
    } else {
        entry_index(entries, id, i + 1)
    }
}

/// Facts about `entry_index`: it lands on an entry with the id, and no earlier one has it.
pub proof fn lemma_entry_index<P>(entries: Seq<ManifestEntry<P>>, id: u32, i: int)
    requires
        0 <= i <= entries.len(),
    ensures
        i <= entry_index(entries, id, i) <= entries.len(),
        entry_index(entries, id, i) < entries.len() ==> entries[entry_index(entries, id, i)].entry_id == id,
        forall|j: int| i <= j < entry_index(entries, id, i) ==> (#[trigger] entries[j]).entry_id != id,
    decreases entries.len() - i,
{
    if i < entries.len() && entries[i].entry_id != id {
        lemma_entry_index(entries, id, i + 1);
    }
}

/// The destinations of the entries, each once, in order of first appearance.
pub open spec fn unique_destinations<P>(entries: Seq<ManifestEntry<P>>) -> Seq<Seq<char>>
    decreases entries.len(),
{
    if entries.len() == 0 {
        seq![]
    } else {
        let rest = unique_destinations(entries.drop_last());
        let d = entries.last().destination@;
        if rest.contains(d) {
            rest
        } else {
            rest.push(d)
        }
    }
}

/// Whether `dv` is the least delta-v of a route of the Earth-Moon map from Earth's surface
/// to `dest`.
pub open spec fn least_delta_v_from_earth(dest: Seq<char>, dv: nat) -> bool {
    let ts = earth_moon_transfers();
    &&& is_known(earth_moon_locations(), dest)
    &&& exists|route: Seq<int>|
        #[trigger] is_route(ts, route, "earth_surface"@, dest) && route_cost(ts, route) == dv
    &&& forall|route: Seq<int>|
        #[trigger] is_route(ts, route, "earth_surface"@, dest) ==> dv <= route_cost(ts, route)
}

/// The sort key of a destination: its least delta-v from Earth's surface, or `None` when
/// no route of representable delta-v reaches it.
pub open spec fn delta_v_key(dest: Seq<char>, key: Option<u64>) -> bool {
    match key {
        Some(dv) => least_delta_v_from_earth(dest, dv as nat),
        None => forall|dv: u64| !#[trigger] least_delta_v_from_earth(dest, dv as nat),
    }
}

/// Order of sort keys: by delta-v, with unreachable destinations last.
pub open spec fn key_le(a: Option<u64>, b: Option<u64>) -> bool {
    match (a, b) {
        (_, None) => true,
        (None, Some(_)) => false,
        (Some(x), Some(y)) => x <= y,
    }
}

/// A destination has one sort key.
pub proof fn lemma_delta_v_key_unique(dest: Seq<char>, k1: Option<u64>, k2: Option<u64>)
    requires
        delta_v_key(dest, k1),
        delta_v_key(dest, k2),
    ensures
        k1 == k2,
{
    let ts = earth_moon_transfers();
    match (k1, k2) {
        (Some(a), Some(b)) => {
            let r1 = choose|route: Seq<int>|
                #[trigger] is_route(ts, route, "earth_surface"@, dest) && route_cost(ts, route) == a;
            let r2 = choose|route: Seq<int>|
                #[trigger] is_route(ts, route, "earth_surface"@, dest) && route_cost(ts, route) == b;
            assert(a <= route_cost(ts, r2));
            assert(b <= route_cost(ts, r1));
        },
        (Some(a), None) => {
            assert(least_delta_v_from_earth(dest, a as nat));
        },
        (None, Some(b)) => {
            assert(least_delta_v_from_earth(dest, b as nat));
        },
        (None, None) => {},
    }
}

/// Earth's surface is a location of the Earth-Moon map.
proof fn lemma_earth_surface_known()
    ensures
        is_known(earth_moon_locations(), "earth_surface"@),
{
    assert(earth_moon_locations()[0].id@ == "earth_surface"@);
}

/// The sort key of a destination, from the cheapest route of the Earth-Moon map.
fn delta_v_key_of(map: &DeltaVMap, dest: &str) -> (k: Option<u64>)
    requires
        map@.locations == earth_moon_locations(),
        map@.transfers == earth_moon_transfers(),
    ensures
        delta_v_key(dest@, k),
{
    proof {
        lemma_earth_surface_known();
    }
    match map.shortest_path("earth_surface", dest) {
        Some((_, dv)) => Some(dv),
        None => {
            proof {
                assert forall|dv: u64| !#[trigger] least_delta_v_from_earth(dest@, dv as nat) by {
                    if least_delta_v_from_earth(dest@, dv as nat) {
                        let ts = earth_moon_transfers();
                        let r = choose|route: Seq<int>|
                            #[trigger] is_route(ts, route, "earth_surface"@, dest@) && route_cost(ts, route)
                                == dv;
                        assert(is_route(ts, r, "earth_surface"@, dest@));
                    }
                }
            }
            None
        },
    }
}

/// Whether key `a` sorts strictly after key `b`.
fn key_after(a: Option<u64>, b: Option<u64>) -> (r: bool)
    ensures
        r == !key_le(a, b),
{
    match (a, b) {
        (_, None) => false,
        (None, Some(_)) => true,
        (Some(x), Some(y)) => x > y,
    }
}

/// `out` lists the distinct destinations `u` by sort key, `keys[i]` being the key of
/// `out[i]` and `perm[i]` its position in `u`; equal keys keep the order of `u`.
pub open spec fn sorted_by_keys(
    u: Seq<Seq<char>>,
    out: Seq<Seq<char>>,
    keys: Seq<Option<u64>>,
    perm: Seq<int>,
) -> bool {
    &&& out.len() == u.len()
    &&& keys.len() == u.len()
    &&& perm.len() == u.len()
    &&& forall|i: int|
        0 <= i < out.len() ==> 0 <= #[trigger] perm[i] < u.len() && out[i] == u[perm[i]] && delta_v_key(
            out[i],
            keys[i],
        )
    &&& forall|i: int, j: int|
        0 <= i < j < out.len() ==> #[trigger] perm[i] != #[trigger] perm[j] && key_le(keys[i], keys[j])
            && (keys[i] == keys[j] ==> perm[i] < perm[j])
    &&& forall|m: int| 0 <= m < u.len() ==> #[trigger] placed(perm, m, out.len() as int)
}

/// Some position below `n` maps to `m`.
pub open spec fn placed(perm: Seq<int>, m: int, n: int) -> bool {
    exists|a: int| 0 <= a < n && #[trigger] perm[a] == m
}

/// `out` is `u` (distinct destinations) sorted by least delta-v from Earth's surface,
/// unreachable ones last, keeping the order of `u` among equal keys.
pub open spec fn sorted_destinations(u: Seq<Seq<char>>, out: Seq<Seq<char>>) -> bool {
    exists|keys: Seq<Option<u64>>, perm: Seq<int>| #[trigger] sorted_by_keys(u, out, keys, perm)
}

/// The views of a list of strings.
pub open spec fn string_views(v: Seq<String>) -> Seq<Seq<char>> {
    v.map_values(|s: String| s@)
}

impl<P> Manifest<P> {
    /// An empty manifest; its first entry gets id 1.
    pub fn new() -> (m: Self)
        ensures
            m@.entries.len() == 0,
            m@.next_entry_id == 1,
    {
        Manifest { entries: Vec::new(), next_entry_id: 1 }
    }

    /// Add an entry carrying `payload` to `destination`; it gets the next entry id, which
    /// The id the next entry will get.
    pub fn next_entry_id(&self) -> (id: u32)
        ensures
            id == self@.next_entry_id,
    {
        self.next_entry_id
    }

    /// is returned.
    pub fn add_entry(&mut self, payload: P, destination: String, destination_display: String) -> (id: u32)
        requires
            old(self)@.next_entry_id < u32::MAX,
        ensures
            id == old(self)@.next_entry_id,
            final(self)@.next_entry_id == old(self)@.next_entry_id + 1,
            final(self)@.entries == old(self)@.entries.push(
                ManifestEntry { entry_id: id, payload, destination, destination_display },
            ),
    {
        let entry_id = self.next_entry_id;
        self.next_entry_id = self.next_entry_id + 1;
        self.entries.push(ManifestEntry { entry_id, payload, destination, destination_display });
        entry_id
    }

    /// Remove the entry with the given id (the first one), returning it if found.
    pub fn remove_entry(&mut self, entry_id: u32) -> (r: Option<ManifestEntry<P>>)
        ensures
            final(self)@.next_entry_id == old(self)@.next_entry_id,
            match r {
                Some(e) => {
                    let k = entry_index(old(self)@.entries, entry_id, 0);
                    &&& k < old(self)@.entries.len()
                    &&& e == old(self)@.entries[k]
                    &&& final(self)@.entries == old(self)@.entries.remove(k)
                },
                None => entry_index(old(self)@.entries, entry_id, 0) == old(self)@.entries.len()
                    && final(self)@.entries == old(self)@.entries,
            },
    {
        proof {
            lemma_entry_index(self@.entries, entry_id, 0);
        }
        let mut k: usize = 0;
        while k < self.entries.len()
            invariant
                self@ == old(self)@,
                self@.entries == self.entries@,
                k <= self@.entries.len(),
                forall|j: int| 0 <= j < k ==> (#[trigger] self@.entries[j]).entry_id != entry_id,
                k <= entry_index(self@.entries, entry_id, 0) <= self@.entries.len(),
                entry_index(self@.entries, entry_id, 0) < self@.entries.len() ==> self@.entries[entry_index(
                    self@.entries,
                    entry_id,
                    0,
                )].entry_id == entry_id,
            decreases self@.entries.len() - k,
        {
            if self.entries[k].entry_id == entry_id {
                proof {
                    lemma_entry_index(self@.entries, entry_id, 0);
                    if (k as int) < entry_index(self@.entries, entry_id, 0) {
                        assert(self@.entries[k as int].entry_id != entry_id);
                    }
                }
                let e = self.entries.remove(k);
                return Some(e);
            }
            k = k + 1;
        }
        None
    }

    /// The entries bound for a destination, in manifest order.
    pub fn entries_for_destination(&self, destination: &str) -> (v: Vec<&ManifestEntry<P>>)
        ensures
            v@.len() == entries_to(self@.entries, destination@).len(),
            forall|i: int| 0 <= i < v@.len() ==> *(#[trigger] v@[i]) == entries_to(self@.entries, destination@)[i],
    {
        let mut v: Vec<&ManifestEntry<P>> = Vec::new();
        let mut i: usize = 0;
        while i < self.entries.len()
            invariant
                self@.entries == self.entries@,
                i <= self@.entries.len(),
                v@.len() == entries_to(self@.entries.take(i as int), destination@).len(),
                forall|j: int| 0 <= j < v@.len() ==> *(#[trigger] v@[j]) == entries_to(self@.entries.take(i as int), destination@)[j],
            decreases self@.entries.len() - i,
        {
            let ghost pre = self@.entries.take(i as int);
            let ghost post = self@.entries.take(i + 1);
            proof {
                assert(post.drop_last() =~= pre);
                assert(post.last() == self@.entries[i as int]);
            }
            if chars_equal(self.entries[i].destination.as_str(), destination) {
                v.push(&self.entries[i]);
            }
            i = i + 1;
        }
        proof {
            assert(self@.entries.take(i as int) =~= self@.entries);
        }
        v
    }

    /// Whether the manifest is empty.
    pub fn is_empty(&self) -> (b: bool)
        ensures
            b == (self@.entries.len() == 0),
    {
        self.entries.len() == 0
    }

    /// Remove all entries (entry ids keep counting up).
    pub fn clear(&mut self)
        ensures
            final(self)@.entries.len() == 0,
            final(self)@.next_entry_id == old(self)@.next_entry_id,
    {
        self.entries.clear();
    }

    /// Number of entries.
    pub fn len(&self) -> (n: usize)
        ensures
            n == self@.entries.len(),
    {
        self.entries.len()
    }

    /// The entry at a position, if any.
    pub fn get(&self, index: usize) -> (r: Option<&ManifestEntry<P>>)
        ensures
            index < self@.entries.len() ==> r == Some(&self@.entries[index as int]),
            index >= self@.entries.len() ==> r is None,
    {
        if index < self.entries.len() {
            Some(&self.entries[index])
        } else {
            None
        }
    }

    /// The entry with the given id (the first one), if any.
    pub fn get_by_id(&self, entry_id: u32) -> (r: Option<&ManifestEntry<P>>)
        ensures
            match r {
                Some(e) => entry_index(self@.entries, entry_id, 0) < self@.entries.len() && *e
                    == self@.entries[entry_index(self@.entries, entry_id, 0)],
                None => entry_index(self@.entries, entry_id, 0) == self@.entries.len(),
            },
    {
        proof {
            lemma_entry_index(self@.entries, entry_id, 0);
        }
        let mut k: usize = 0;
        while k < self.entries.len()
            invariant
                self@.entries == self.entries@,
                k <= self@.entries.len(),
                forall|j: int| 0 <= j < k ==> (#[trigger] self@.entries[j]).entry_id != entry_id,
                k <= entry_index(self@.entries, entry_id, 0) <= self@.entries.len(),
                entry_index(self@.entries, entry_id, 0) < self@.entries.len() ==> self@.entries[entry_index(
                    self@.entries,
                    entry_id,
                    0,
                )].entry_id == entry_id,
            decreases self@.entries.len() - k,
        {
            if self.entries[k].entry_id == entry_id {
                proof {
                    lemma_entry_index(self@.entries, entry_id, 0);
                    if (k as int) < entry_index(self@.entries, entry_id, 0) {
                        assert(self@.entries[k as int].entry_id != entry_id);
                    }
                }
                return Some(&self.entries[k]);
            }
            k = k + 1;
        }
        None
    }

    /// The destinations of the entries, each once, in order of first appearance.
    fn destination_list(&self) -> (v: Vec<String>)
        ensures
            string_views(v@) == unique_destinations(self@.entries),
    {
        let mut dests: Vec<String> = Vec::new();
        let mut i: usize = 0;
        while i < self.entries.len()
            invariant
                self@.entries == self.entries@,
                i <= self@.entries.len(),
                string_views(dests@) == unique_destinations(self@.entries.take(i as int)),
            decreases self@.entries.len() - i,
        {
            let ghost pre = self@.entries.take(i as int);
            let ghost post = self@.entries.take(i + 1);
            proof {
                assert(post.drop_last() =~= pre);
                assert(post.last() == self@.entries[i as int]);
            }
            let d = &self.entries[i].destination;
            let mut found = false;
            let mut j: usize = 0;
            while j < dests.len()
                invariant
                    j <= dests@.len(),
                    found <==> exists|k: int| 0 <= k < j && (#[trigger] dests@[k])@ == d@,
                decreases dests@.len() - j,
            {
                if chars_equal(dests[j].as_str(), d.as_str()) {
                    found = true;
                }
                j = j + 1;
            }
            proof {
                let r = unique_destinations(pre);
                assert(r == string_views(dests@));
                if found {
                    let k = choose|k: int| 0 <= k < j && (#[trigger] dests@[k])@ == d@;
                    assert(r[k] == d@);
                    assert(r.contains(d@));
                } else {
                    if r.contains(d@) {
                        let k = choose|k: int| 0 <= k < r.len() && r[k] == d@;
                        assert(dests@[k]@ == d@);
                    }
                }
            }
            if !found {
                let ghost before = dests@;
                dests.push(d.clone());
                proof {
                    assert(string_views(dests@) =~= string_views(before).push(d@));
                }
            }
            i = i + 1;
        }
        proof {
            assert(self@.entries.take(i as int) =~= self@.entries);
        }
        dests
    }

    /// Unique destination ids, sorted by least delta-v from Earth's surface (ascending;
    /// unreachable ones last), which gives the outward ordering: LEO before GEO before
    /// lunar. Destinations of equal delta-v keep their order of first appearance.
    pub fn unique_destinations_sorted_by_delta_v(&self) -> (out: Vec<String>)
        ensures
            sorted_destinations(unique_destinations(self@.entries), string_views(out@)),
    {
        let map = DeltaVMap::earth_moon();
        let dests = self.destination_list();
        let ghost u = unique_destinations(self@.entries);
        let mut ks: Vec<Option<u64>> = Vec::new();
        let mut i: usize = 0;
        while i < dests.len()
            invariant
                map@.locations == earth_moon_locations(),
                map@.transfers == earth_moon_transfers(),
                string_views(dests@) == u,
                i <= dests@.len(),
                ks@.len() == i,
                forall|m: int| 0 <= m < i ==> delta_v_key(u[m], #[trigger] ks@[m]),
            decreases dests@.len() - i,
        {
            let k = delta_v_key_of(&map, dests[i].as_str());
            proof {
                assert(u[i as int] == dests@[i as int]@);
            }
            ks.push(k);
            i = i + 1;
        }
        let mut out: Vec<String> = Vec::new();
        let mut out_keys: Vec<Option<u64>> = Vec::new();
        let ghost mut perm: Seq<int> = seq![];
        let mut j: usize = 0;
        while j < dests.len()
            invariant
                string_views(dests@) == u,
                ks@.len() == u.len(),
                forall|m: int| 0 <= m < u.len() ==> delta_v_key(u[m], #[trigger] ks@[m]),
                j <= u.len(),
                out@.len() == j,
                out_keys@.len() == j,
                perm.len() == j,
                forall|a: int|
                    0 <= a < j ==> 0 <= #[trigger] perm[a] < j && out@[a]@ == u[perm[a]] && out_keys@[a]
                        == ks@[perm[a]],
                forall|a: int, b: int| 0 <= a < b < j ==> #[trigger] perm[a] != #[trigger] perm[b],
                forall|a: int, b: int|
                    0 <= a < b < j ==> key_le(#[trigger] out_keys@[a], #[trigger] out_keys@[b]),
                forall|a: int, b: int|
                    0 <= a < b < j && out_keys@[a] == out_keys@[b] ==> #[trigger] perm[a] < #[trigger] perm[b],
                forall|m: int| 0 <= m < j ==> #[trigger] placed(perm, m, j as int),
            decreases u.len() - j,
        {
            let k = ks[j];
            let mut p: usize = 0;
            while p < out_keys.len() && !key_after(out_keys[p], k)
                invariant
                    p <= out_keys@.len(),
                    forall|a: int| 0 <= a < p ==> key_le(#[trigger] out_keys@[a], k),
                decreases out_keys@.len() - p,
            {
                p = p + 1;
            }
            let ghost old_perm = perm;
            let ghost old_keys = out_keys@;
            let ghost old_out = out@;
            out.insert(p, dests[j].clone());
            out_keys.insert(p, k);
            proof {
                perm = old_perm.insert(p as int, j as int);
                assert(u[j as int] == dests@[j as int]@);
                assert forall|a: int| 0 <= a < j + 1 implies 0 <= #[trigger] perm[a] < j + 1 && out@[a]@ == u[perm[a]]
                    && out_keys@[a] == ks@[perm[a]] by {
                    if a < p {
                        assert(perm[a] == old_perm[a]);
                        assert(out@[a] == old_out[a]);
                        assert(out_keys@[a] == old_keys[a]);
                    } else if a > p {
                        assert(perm[a] == old_perm[a - 1]);
                        assert(out@[a] == old_out[a - 1]);
                        assert(out_keys@[a] == old_keys[a - 1]);
                    }
                }
                assert forall|a: int, b: int| 0 <= a < b < j + 1 implies #[trigger] perm[a] != #[trigger] perm[b]
                    && key_le(out_keys@[a], out_keys@[b]) && (out_keys@[a] == out_keys@[b] ==> perm[a] < perm[b]) by {
                    if p < old_keys.len() {
                        assert(!key_le(old_keys[p as int], k));
                    }
                    if b < p {
                        assert(perm[a] == old_perm[a] && perm[b] == old_perm[b]);
                        assert(out_keys@[a] == old_keys[a] && out_keys@[b] == old_keys[b]);
                    } else if b == p {
                        assert(perm[b] == j);
                        assert(out_keys@[b] == k);
                        assert(0 <= old_perm[a] < j);
                        assert(perm[a] == old_perm[a]);
                        assert(out_keys@[a] == old_keys[a]);
                        assert(key_le(old_keys[a], k));
                    } else if a < p {
                        assert(perm[a] == old_perm[a] && perm[b] == old_perm[b - 1]);
                        assert(out_keys@[a] == old_keys[a] && out_keys@[b] == old_keys[b - 1]);
                        if a < b - 1 {
                            assert(key_le(old_keys[a], old_keys[b - 1]));
                        }
                    } else if a == p {
                        assert(perm[a] == j);
                        assert(perm[b] == old_perm[b - 1]);
                        assert(out_keys@[a] == k);
                        assert(out_keys@[b] == old_keys[b - 1]);
                        assert(0 <= old_perm[b - 1] < j);
                        if p < b - 1 {
                            assert(old_perm[p as int] != old_perm[b - 1]);
                            assert(key_le(old_keys[p as int], old_keys[b - 1]));
                        }
                        assert(!key_le(old_keys[b - 1], k));
                        assert(key_le(k, old_keys[b - 1]));
                    } else {
                        assert(perm[a] == old_perm[a - 1] && perm[b] == old_perm[b - 1]);
                        assert(out_keys@[a] == old_keys[a - 1] && out_keys@[b] == old_keys[b - 1]);
                    }
                }
            }
            proof {
                assert forall|m: int| 0 <= m < j + 1 implies #[trigger] placed(perm, m, j + 1) by {
                    if m == j {
                        assert(perm[p as int] == m);
                    } else {
                        assert(placed(old_perm, m, j as int));
                        let a0 = choose|a: int| 0 <= a < j && #[trigger] old_perm[a] == m;
                        if a0 < p {
                            assert(perm[a0] == m);
                            assert(out@[a0] == old_out[a0]);
                        } else {
                            assert(perm[a0 + 1] == m);
                            assert(out@[a0 + 1] == old_out[a0]);
                        }
                    }
                }
            }
            j = j + 1;
        }
        proof {
            let keys = out_keys@;
            assert(sorted_by_keys(u, string_views(out@), keys, perm));
        }
        out
    }

    /// The farthest destination's least delta-v from Earth's surface: the largest over
    /// the destinations, or 0 when the manifest is empty or some destination cannot be
    /// reached.
    pub fn max_delta_v(&self) -> (dv: u64)
        ensures
            ({
                let u = unique_destinations(self@.entries);
                &&& (u.len() == 0 || exists|i: int| 0 <= i < u.len() && delta_v_key(#[trigger] u[i], None)) ==> dv == 0
                &&& (u.len() > 0 && forall|i: int| 0 <= i < u.len() ==> !delta_v_key(#[trigger] u[i], None)) ==> {
                    &&& exists|i: int| 0 <= i < u.len() && delta_v_key(#[trigger] u[i], Some(dv))
                    &&& forall|i: int, d: u64|
                        0 <= i < u.len() && #[trigger] delta_v_key(u[i], Some(d)) ==> d <= dv
                }
            }),
    {
        let out = self.unique_destinations_sorted_by_delta_v();
        let ghost u = unique_destinations(self@.entries);
        let ghost views = string_views(out@);
        if out.len() == 0 {
            return 0;
        }
        let map = DeltaVMap::earth_moon();
        let last = out.len() - 1;
        let k = delta_v_key_of(&map, out[last].as_str());
        proof {
            let (keys, perm) = choose|keys: Seq<Option<u64>>, perm: Seq<int>| #[trigger] sorted_by_keys(u, views, keys, perm);
            let n = views.len();
            assert(views[n - 1] == out@[last as int]@);
            assert(0 <= perm[n - 1] < u.len());
            lemma_delta_v_key_unique(views[n - 1], k, keys[n - 1]);
            assert forall|i: int| 0 <= i < u.len() implies key_le(#[trigger] keys[i], keys[n - 1]) by {
                if i < n - 1 {
                    assert(perm[i] != perm[n - 1]);
                }
            }
            if exists|i: int| 0 <= i < u.len() && delta_v_key(#[trigger] u[i], None) {
                let i = choose|i: int| 0 <= i < u.len() && delta_v_key(#[trigger] u[i], None);
                assert(placed(perm, i, n as int));
                let q = choose|a: int| 0 <= a < n && #[trigger] perm[a] == i;
                lemma_delta_v_key_unique(views[q], keys[q], None);
                assert(key_le(keys[q], keys[n - 1]));
            }
            if u.len() > 0 && forall|i: int| 0 <= i < u.len() ==> !delta_v_key(#[trigger] u[i], None) {
                assert(!delta_v_key(u[perm[n - 1]], None));
                assert forall|i: int, d: u64| 0 <= i < u.len() && #[trigger] delta_v_key(u[i], Some(d)) implies d
                    <= keys[n - 1]->0 by {
                    assert(placed(perm, i, n as int));
                let q = choose|a: int| 0 <= a < n && #[trigger] perm[a] == i;
                    lemma_delta_v_key_unique(views[q], keys[q], Some(d));
                    assert(key_le(keys[q], keys[n - 1]));
                }
                assert(delta_v_key(u[perm[n - 1]], keys[n - 1]));
            }
        }
        match k {
            Some(dv) => dv,
            None => 0,
        }
    }
}

} // verus!
