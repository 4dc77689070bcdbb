//! Inventories of built hardware: engines grouped by design revision, and assembled
//! rockets with serial numbers, plus per-design production counts.

use vstd::prelude::*;

use crate::manufacturing::{engines_required, RocketInventoryEntry};
use crate::rocket_design::{engine_counts_fit, engines_for, lemma_unused_engine_none, total_engines, uses_engine, RocketDesign};

verus! {

/// A stock of built engines of one design revision.
#[derive(Debug, Clone, Copy, PartialEq, Eq, Structural)]
pub struct EngineStock {
    /// Which engine design lineage these came from
    pub engine_design_id: usize,
    /// Which revision was used to build them
    pub revision_number: u32,
    /// Number of these engines available
    pub quantity: u32,
}

/// Engines of design `id` in the stocks from position `i` on.
pub open spec fn stock_from(s: Seq<EngineStock>, i: int, id: usize) -> nat
    decreases s.len() - i,
{
    if i < 0 || i >= s.len() {
        0
    } else {
        (if s[i].engine_design_id == id {
            s[i].quantity as nat
        } else {
            0
        }) + stock_from(s, i + 1, id)
    }
}

/// Engines of design `id` over all stocks.
pub open spec fn stock_of(s: Seq<EngineStock>, id: usize) -> nat {
    stock_from(s, 0, id)
}

/// Engines of one stock that count toward design `id`.
pub open spec fn stock_share(e: EngineStock, id: usize) -> nat {
    if e.engine_design_id == id {
        e.quantity as nat
    } else {
        0
    }
}

/// Whether the stocks hold every engine a rocket design needs.
pub open spec fn has_engines_for(s: Seq<EngineStock>, stages: Seq<crate::rocket_design::RocketStage>) -> bool {
    forall|id: usize| #[trigger] engines_for(stages, id) <= stock_of(s, id)
}

/// No design's engine count overflows a `u32`.
pub open spec fn stock_counts_fit(s: Seq<EngineStock>) -> bool {
    forall|id: usize| #[trigger] stock_of(s, id) <= u32::MAX
}

/// Replacing one stock by another of the same design changes the counts by the
/// difference, from every position up to it; later positions are unaffected.
pub proof fn lemma_stock_update(s: Seq<EngineStock>, j: int, e: EngineStock, i: int, id: usize)
    requires
        0 <= j < s.len(),
        e.engine_design_id == s[j].engine_design_id,
        0 <= i,
    ensures
        i <= j ==> stock_from(s.update(j, e), i, id) + stock_share(s[j], id) == stock_from(s, i, id)
            + stock_share(e, id),
        i > j ==> stock_from(s.update(j, e), i, id) == stock_from(s, i, id),
    decreases s.len() - i,
{
    if i < s.len() {
        lemma_stock_update(s, j, e, i + 1, id);
    }
}

/// A design that no stock holds counts no engines.
pub proof fn lemma_stock_absent(s: Seq<EngineStock>, i: int, id: usize)
    requires
        0 <= i,
        forall|k: int| 0 <= k < s.len() ==> (#[trigger] s[k]).engine_design_id != id,
    ensures
        stock_from(s, i, id) == 0,
    decreases s.len() - i,
{
    if i < s.len() {
        lemma_stock_absent(s, i + 1, id);
    }
}

/// Appending a stock adds its engines to every count that reaches the end.
pub proof fn lemma_stock_push(s: Seq<EngineStock>, e: EngineStock, i: int, id: usize)
    requires
        0 <= i <= s.len(),
    ensures
        stock_from(s.push(e), i, id) == stock_from(s, i, id) + stock_share(e, id),
    decreases s.len() - i,
{
    if i < s.len() {
        lemma_stock_push(s, e, i + 1, id);
        assert(s.push(e)[i] == s[i]);
    } else {
        assert(s.push(e)[i] == e);
        assert(stock_from(s.push(e), i + 1, id) == 0);
    }
}

/// Position of the first history entry for design `id` (the length when there is none).
pub open spec fn history_index(h: Seq<(usize, u32)>, id: usize, from: int) -> int
    decreases h.len() - from,
{
    if from < 0 || from >= h.len() {
        h.len() as int
    } else if h[from].0 == id {
        from
    } else {
        history_index(h, id, from + 1)
    }
}

/// The production history after one more unit of design `id`.
pub open spec fn history_after(h: Seq<(usize, u32)>, id: usize) -> Seq<(usize, u32)> {
    let k = history_index(h, id, 0);
    if k < h.len() {
        h.update(k, (id, (h[k].1 + 1) as u32))
    } else {
        h.push((id, 1))
    }
}

/// Room for one more unit of design `id` in the production history.
pub open spec fn history_has_room(h: Seq<(usize, u32)>, id: usize) -> bool {
    let k = history_index(h, id, 0);
    k < h.len() ==> h[k].1 < u32::MAX
}

proof fn lemma_history_index_facts(h: Seq<(usize, u32)>, id: usize, from: int)
    requires
        0 <= from <= h.len(),
    ensures
        from <= history_index(h, id, from) <= h.len(),
        history_index(h, id, from) < h.len() ==> h[history_index(h, id, from)].0 == id,
        forall|k: int| from <= k < history_index(h, id, from) ==> h[k].0 != id,
    decreases h.len() - from,
{
    if from < h.len() && h[from].0 != id {
        lemma_history_index_facts(h, id, from + 1);
    }
}

/// Count one more produced unit of design `id`.
fn record_production(history: &mut Vec<(usize, u32)>, id: usize)
    requires
        history_has_room(old(history)@, id),
    ensures
        final(history)@ == history_after(old(history)@, id),
{
    proof {
        lemma_history_index_facts(history@, id, 0);
    }
    let mut k: usize = 0;
    while k < history.len() && history[k].0 != id
        invariant
            0 <= k <= history@.len(),
            forall|j: int| 0 <= j < k ==> history@[j].0 != id,
            k <= history_index(history@, id, 0),
            history_index(history@, id, 0) <= history@.len(),
            history_index(history@, id, 0) < history@.len() ==> history@[history_index(history@, id, 0)].0 == id,
        decreases history@.len() - k,
    {
        proof {
            lemma_history_index_facts(history@, id, 0);
        }
        k = k + 1;
    }
    proof {
        lemma_history_index_facts(history@, id, 0);
        if k < history@.len() {
            assert(history_index(history@, id, 0) == k);
        } else {
            assert(history_index(history@, id, 0) == k);
        }
    }
    if k < history.len() {
        let count = history[k].1;
        history.set(k, (id, count + 1));
    } else {
        history.push((id, 1));
    }
}

/// Whether the production history has room for one more unit of design `id`.
pub fn history_room(history: &Vec<(usize, u32)>, id: usize) -> (b: bool)
    ensures
        b == history_has_room(history@, id),
{
    proof {
        lemma_history_index_facts(history@, id, 0);
    }
    let mut k: usize = 0;
    while k < history.len()
        invariant
            0 <= k <= history@.len(),
            k <= history_index(history@, id, 0) <= history@.len(),
            history_index(history@, id, 0) < history@.len() ==> history@[history_index(history@, id, 0)].0 == id,
            forall|j: int| 0 <= j < k ==> (#[trigger] history@[j]).0 != id,
        decreases history@.len() - k,
    {
        if history[k].0 == id {
            proof {
                lemma_history_index_facts(history@, id, 0);
                if (k as int) < history_index(history@, id, 0) {
                    assert(history@[k as int].0 != id);
                }
            }
            return history[k].1 < u32::MAX;
        }
        k = k + 1;
    }
    true
}

/// Position of the first stock of design `id` at revision `rev`, from position `from` on
/// (the length when there is none).
pub open spec fn stock_index(s: Seq<EngineStock>, id: usize, rev: u32, from: int) -> int
    decreases s.len() - from,
{
    if from < 0 || from >= s.len() {
        s.len() as int
    } else if s[from].engine_design_id == id && s[from].revision_number == rev {
        from
    } else {
        stock_index(s, id, rev, from + 1)
    }
}

/// The stocks after one more engine of design `id` at revision `rev`: the first stock of
/// that revision grows by one, or a new stock of one engine is appended.
pub open spec fn stocks_after_add(s: Seq<EngineStock>, id: usize, rev: u32) -> Seq<EngineStock> {
    let k = stock_index(s, id, rev, 0);
    if k < s.len() {
        s.update(k, EngineStock { quantity: (s[k].quantity + 1) as u32, ..s[k] })
    } else {
        s.push(EngineStock { engine_design_id: id, revision_number: rev, quantity: 1 })
    }
}

proof fn lemma_stock_index_facts(s: Seq<EngineStock>, id: usize, rev: u32, from: int)
    requires
        0 <= from <= s.len(),
    ensures
        from <= stock_index(s, id, rev, from) <= s.len(),
        stock_index(s, id, rev, from) < s.len() ==> s[stock_index(s, id, rev, from)].engine_design_id
            == id && s[stock_index(s, id, rev, from)].revision_number == rev,
        forall|k: int|
            from <= k < stock_index(s, id, rev, from) ==> !(#[trigger] s[k].engine_design_id == id
                && s[k].revision_number == rev),
    decreases s.len() - from,
{
    if from < s.len() && !(s[from].engine_design_id == id && s[from].revision_number == rev) {
        lemma_stock_index_facts(s, id, rev, from + 1);
    }
}

/// Built engines, grouped by design and revision, and how many of each design were made.
#[derive(Debug, Clone)]
pub struct EngineInventory {
    pub entries: Vec<EngineStock>,
    /// Number of engines produced per design
    pub production_history: Vec<(usize, u32)>,
}

impl EngineInventory {
    /// An empty inventory.
    pub fn new() -> (inv: Self)
        ensures
            inv.entries@.len() == 0,
            inv.production_history@.len() == 0,
    {
        EngineInventory { entries: Vec::new(), production_history: Vec::new() }
    }

    /// Add one completed engine: it joins the stock of its design revision (a new stock
    /// at the end if there is none), and the design's production count grows by one.
    pub fn add_engine_to_inventory(&mut self, engine_design_id: usize, revision_number: u32)
        requires
            stock_of(old(self).entries@, engine_design_id) < u32::MAX,
            history_has_room(old(self).production_history@, engine_design_id),
        ensures
            forall|id: usize|
                #[trigger] stock_of(final(self).entries@, id) == stock_of(old(self).entries@, id) + if id
                    == engine_design_id {
                    1nat
                } else {
                    0nat
                },
            final(self).entries@ == stocks_after_add(old(self).entries@, engine_design_id, revision_number),
            final(self).production_history@ == history_after(
                old(self).production_history@,
                engine_design_id,
            ),
    {
        let ghost old_entries = self.entries@;
        proof {
            lemma_stock_index_facts(old_entries, engine_design_id, revision_number, 0);
        }
        let mut k: usize = 0;
        while k < self.entries.len() && !(self.entries[k].engine_design_id == engine_design_id
            && self.entries[k].revision_number == revision_number)
            invariant
                k <= self.entries@.len(),
                self.entries@ == old_entries,
                k <= stock_index(old_entries, engine_design_id, revision_number, 0),
                stock_index(old_entries, engine_design_id, revision_number, 0) <= old_entries.len(),
                stock_index(old_entries, engine_design_id, revision_number, 0) < old_entries.len()
                    ==> old_entries[stock_index(old_entries, engine_design_id, revision_number, 0)].engine_design_id
                    == engine_design_id && old_entries[stock_index(
                    old_entries,
                    engine_design_id,
                    revision_number,
                    0,
                )].revision_number == revision_number,
            decreases self.entries@.len() - k,
        {
            k = k + 1;
        }
        assert(stock_index(old_entries, engine_design_id, revision_number, 0) == k);
        if k < self.entries.len() {
            let e = self.entries[k];
            proof {
                lemma_stock_share_below(old_entries, k as int, 0, engine_design_id);
            }
            let updated = EngineStock { quantity: e.quantity + 1, ..e };
            self.entries.set(k, updated);
            proof {
                assert forall|id: usize| #[trigger] stock_of(self.entries@, id) == stock_of(old_entries, id)
                    + if id == engine_design_id { 1nat } else { 0nat } by {
                    lemma_stock_update(old_entries, k as int, updated, 0, id);
                }
            }
        } else {
            let e = EngineStock { engine_design_id, revision_number, quantity: 1 };
            self.entries.push(e);
            proof {
                assert forall|id: usize| #[trigger] stock_of(self.entries@, id) == stock_of(old_entries, id)
                    + if id == engine_design_id { 1nat } else { 0nat } by {
                    lemma_stock_push(old_entries, e, 0, id);
                }
            }
        }
        record_production(&mut self.production_history, engine_design_id);
    }

    /// Engines available for a specific design, over all its revisions.
    pub fn get_engines_available(&self, engine_design_id: usize) -> (n: u32)
        requires
            stock_of(self.entries@, engine_design_id) <= u32::MAX,
        ensures
            n == stock_of(self.entries@, engine_design_id),
    {
        let mut total: u32 = 0;
        let mut i: usize = 0;
        while i < self.entries.len()
            invariant
                i <= self.entries@.len(),
                total + stock_from(self.entries@, i as int, engine_design_id) == stock_of(
                    self.entries@,
                    engine_design_id,
                ),
                stock_of(self.entries@, engine_design_id) <= u32::MAX,
            decreases self.entries@.len() - i,
        {
            if self.entries[i].engine_design_id == engine_design_id {
                total = total + self.entries[i].quantity;
            }
            i = i + 1;
        }
        total
    }

    /// Engines available for a design over all its revisions, or `None` when that count
    /// does not fit a `u32`.
    pub fn checked_engines_available(&self, engine_design_id: usize) -> (r: Option<u32>)
        ensures
            match r {
                Some(n) => n == stock_of(self.entries@, engine_design_id),
                None => stock_of(self.entries@, engine_design_id) > u32::MAX,
            },
    {
        let mut total: u32 = 0;
        let mut i: usize = 0;
        while i < self.entries.len()
            invariant
                i <= self.entries@.len(),
                total + stock_from(self.entries@, i as int, engine_design_id) == stock_of(
                    self.entries@,
                    engine_design_id,
                ),
            decreases self.entries@.len() - i,
        {
            if self.entries[i].engine_design_id == engine_design_id {
                match total.checked_add(self.entries[i].quantity) {
                    Some(t) => total = t,
                    None => return None,
                }
            }
            i = i + 1;
        }
        Some(total)
    }

    /// Whether every design's engine count fits a `u32`.
    pub fn counts_fit(&self) -> (b: bool)
        ensures
            b == stock_counts_fit(self.entries@),
    {
        let mut i: usize = 0;
        while i < self.entries.len()
            invariant
                i <= self.entries@.len(),
                forall|k: int| 0 <= k < i ==> stock_of(self.entries@, (#[trigger] self.entries@[k]).engine_design_id) <= u32::MAX,
            decreases self.entries@.len() - i,
        {
            if self.checked_engines_available(self.entries[i].engine_design_id).is_none() {
                return false;
            }
            i = i + 1;
        }
        proof {
            assert forall|id: usize| #[trigger] stock_of(self.entries@, id) <= u32::MAX by {
                if exists|k: int| 0 <= k < self.entries@.len() && (#[trigger] self.entries@[k]).engine_design_id == id {
                    let k = choose|k: int| 0 <= k < self.entries@.len() && (#[trigger] self.entries@[k]).engine_design_id == id;
                } else {
                    lemma_stock_absent(self.entries@, 0, id);
                }
            }
        }
        true
    }

    /// Whether every engine a rocket design needs is in inventory.
    pub fn has_engines_for_rocket(&self, design: &RocketDesign) -> (b: bool)
        requires
            engine_counts_fit(design.stages@),
            stock_counts_fit(self.entries@),
        ensures
            b == has_engines_for(self.entries@, design.stages@),
    {
        let required = engines_required(design);
        let mut t: usize = 0;
        while t < required.len()
            invariant
                t <= required@.len(),
                stock_counts_fit(self.entries@),
                forall|a: int| 0 <= a < required@.len() ==> (#[trigger] required@[a]).1 == engines_for(design.stages@, required@[a].0),
                forall|id: usize| uses_engine(design.stages@, id) <==> exists|a: int| 0 <= a < required@.len() && (#[trigger] required@[a]).0 == id,
                forall|a: int| 0 <= a < t ==> (#[trigger] required@[a]).1 <= stock_of(self.entries@, required@[a].0),
            decreases required@.len() - t,
        {
            let (id, count) = required[t];
            assert(stock_of(self.entries@, id) <= u32::MAX);
            if self.get_engines_available(id) < count {
                proof {
                    assert(required@[t as int].1 == engines_for(design.stages@, id));
                }
                return false;
            }
            t = t + 1;
        }
        proof {
            assert forall|id: usize| #[trigger] engines_for(design.stages@, id) <= stock_of(self.entries@, id) by {
                if uses_engine(design.stages@, id) {
                    let a = choose|a: int| 0 <= a < required@.len() && (#[trigger] required@[a]).0 == id;
                } else {
                    lemma_unused_engine_none(design.stages@, id);
                }
            }
        }
        true
    }

    /// Take the engines for a rocket design out of inventory, oldest stock of each design
    /// first; stocks that run empty are dropped. Refused (false, nothing taken) when some
    /// engine is missing.
    pub fn consume_engines_for_rocket(&mut self, design: &RocketDesign) -> (ok: bool)
        requires
            engine_counts_fit(design.stages@),
            stock_counts_fit(old(self).entries@),
        ensures
            ok == has_engines_for(old(self).entries@, design.stages@),
            ok ==> forall|id: usize| #[trigger] stock_of(final(self).entries@, id) + engines_for(design.stages@, id)
                == stock_of(old(self).entries@, id),
            ok ==> forall|k: int| 0 <= k < final(self).entries@.len() ==> (#[trigger] final(self).entries@[k]).quantity > 0,
            ok ==> final(self).entries@ == stocks_after_rocket(old(self).entries@, design.stages@),
            !ok ==> final(self).entries@ == old(self).entries@,
            final(self).production_history@ == old(self).production_history@,
    {
        if !self.has_engines_for_rocket(design) {
            return false;
        }
        let ghost orig = self.entries@;
        let required = engines_required(design);
        let mut t: usize = 0;
        while t < required.len()
            invariant
                t <= required@.len(),
                has_engines_for(orig, design.stages@),
                self.production_history@ == old(self).production_history@,
                forall|a: int, b: int| 0 <= a < b < required@.len() ==> (#[trigger] required@[a]).0 < (#[trigger] required@[b]).0,
                forall|a: int| 0 <= a < required@.len() ==> (#[trigger] required@[a]).1 == engines_for(design.stages@, required@[a].0),
                forall|id: usize| uses_engine(design.stages@, id) <==> exists|a: int| 0 <= a < required@.len() && (#[trigger] required@[a]).0 == id,
                forall|a: int| 0 <= a < t ==> #[trigger] stock_of(self.entries@, required@[a].0) + required@[a].1 == stock_of(orig, required@[a].0),
                forall|a: int| t <= a < required@.len() ==> #[trigger] stock_of(self.entries@, required@[a].0) == stock_of(orig, required@[a].0),
                forall|id: usize| !uses_engine(design.stages@, id) ==> #[trigger] stock_of(self.entries@, id) == stock_of(orig, id),
                self.entries@.len() == orig.len(),
                forall|j: int|
                    0 <= j < orig.len() ==> #[trigger] self.entries@[j] == if exists|a: int|
                        0 <= a < t && (#[trigger] required@[a]).0 == orig[j].engine_design_id {
                        stock_after_rocket(orig, design.stages@, j)
                    } else {
                        orig[j]
                    },
            decreases required@.len() - t,
        {
            let (id, count) = required[t];
            proof {
                assert(engines_for(design.stages@, id) <= stock_of(orig, id));
            }
            let ghost before = self.entries@;
            take_engines(&mut self.entries, id, count);
            proof {
                assert forall|i: int| 0 <= i < before.len() implies stock_share(#[trigger] before[i], id)
                    == stock_share(orig[i], id) by {
                    if orig[i].engine_design_id == id {
                        if exists|a: int| 0 <= a < t && (#[trigger] required@[a]).0 == orig[i].engine_design_id {
                            let a = choose|a: int| 0 <= a < t && (#[trigger] required@[a]).0 == orig[i].engine_design_id;
                            assert(required@[a].0 < required@[t as int].0);
                        }
                    }
                }
                assert forall|j: int| 0 <= j < orig.len() implies #[trigger] self.entries@[j] == if exists|a: int|
                    0 <= a < t + 1 && (#[trigger] required@[a]).0 == orig[j].engine_design_id {
                    stock_after_rocket(orig, design.stages@, j)
                } else {
                    orig[j]
                } by {
                    if orig[j].engine_design_id == id {
                        if exists|a: int| 0 <= a < t && (#[trigger] required@[a]).0 == orig[j].engine_design_id {
                            let a = choose|a: int| 0 <= a < t && (#[trigger] required@[a]).0 == orig[j].engine_design_id;
                            assert(required@[a].0 < required@[t as int].0);
                        }
                        assert(before[j] == orig[j]);
                        lemma_stock_before_same_shares(before, orig, j, id);
                        assert(required@[t as int].0 == orig[j].engine_design_id);
                    } else {
                        assert(self.entries@[j] == before[j]);
                        if exists|a: int| 0 <= a < t + 1 && (#[trigger] required@[a]).0 == orig[j].engine_design_id {
                            let a = choose|a: int| 0 <= a < t + 1 && (#[trigger] required@[a]).0 == orig[j].engine_design_id;
                            assert(a < t);
                        }
                    }
                }
                assert forall|a: int| 0 <= a < t + 1 implies #[trigger] stock_of(self.entries@, required@[a].0) + required@[a].1 == stock_of(orig, required@[a].0) by {
                    if a < t {
                        assert(required@[a].0 < required@[t as int].0);
                    }
                }
                assert forall|a: int| t + 1 <= a < required@.len() implies #[trigger] stock_of(self.entries@, required@[a].0) == stock_of(orig, required@[a].0) by {
                    assert(required@[t as int].0 < required@[a].0);
                }
                assert forall|x: usize| !uses_engine(design.stages@, x) implies #[trigger] stock_of(self.entries@, x) == stock_of(orig, x) by {
                    if x == id {
                        assert(uses_engine(design.stages@, id));
                    }
                }
            }
            t = t + 1;
        }
        let ghost taken = self.entries@;
        proof {
            assert forall|x: usize| #[trigger] stock_of(taken, x) + engines_for(design.stages@, x) == stock_of(orig, x) by {
                if uses_engine(design.stages@, x) {
                    let a = choose|a: int| 0 <= a < required@.len() && (#[trigger] required@[a]).0 == x;
                    assert(stock_of(taken, required@[a].0) + required@[a].1 == stock_of(orig, required@[a].0));
                } else {
                    lemma_unused_engine_none(design.stages@, x);
                }
            }
        }
        proof {
            let mid = Seq::new(orig.len(), |j: int| stock_after_rocket(orig, design.stages@, j));
            assert forall|j: int| 0 <= j < orig.len() implies #[trigger] taken[j] == mid[j] by {
                let x = orig[j].engine_design_id;
                if !uses_engine(design.stages@, x) {
                    lemma_unused_engine_none(design.stages@, x);
                    if exists|a: int| 0 <= a < required@.len() && (#[trigger] required@[a]).0 == x {
                        assert(uses_engine(design.stages@, x));
                    }
                } else {
                    let a = choose|a: int| 0 <= a < required@.len() && (#[trigger] required@[a]).0 == x;
                    assert(exists|a: int| 0 <= a < required@.len() && (#[trigger] required@[a]).0 == x);
                }
            }
            assert(taken =~= mid);
        }
        let kept = remove_empty_stocks(&self.entries);
        self.entries = kept;
        true
    }
}

/// A single stock never holds more engines of a design than the count from any earlier
/// position.
proof fn lemma_stock_share_below(s: Seq<EngineStock>, k: int, i: int, id: usize)
    requires
        0 <= i <= k < s.len(),
    ensures
        stock_share(s[k], id) <= stock_from(s, i, id),
    decreases k - i,
{
    if i < k {
        lemma_stock_share_below(s, k, i + 1, id);
    }
}

/// Engines of design `id` in the first `k` stocks.
pub open spec fn stock_before(s: Seq<EngineStock>, k: int, id: usize) -> nat
    decreases k,
{
    if k <= 0 {
        0
    } else {
        stock_before(s, k - 1, id) + stock_share(s[k - 1], id)
    }
}

/// What stock `j` keeps when `need` engines of its design are taken, oldest stock first:
/// the stocks of that design before it give what they hold first.
pub open spec fn kept_quantity(s: Seq<EngineStock>, j: int, need: nat) -> nat {
    let before = stock_before(s, j, s[j].engine_design_id);
    let q = s[j].quantity as nat;
    if before >= need {
        q
    } else if before + q <= need {
        0
    } else {
        (before + q - need) as nat
    }
}

/// Stock `j` after `need` engines of design `id` are taken, oldest stock first.
pub open spec fn taken_stock(s: Seq<EngineStock>, j: int, id: usize, need: nat) -> EngineStock {
    if s[j].engine_design_id == id {
        EngineStock { quantity: kept_quantity(s, j, need) as u32, ..s[j] }
    } else {
        s[j]
    }
}

/// The stocks that hold engines, in their order.
pub open spec fn positive_stocks(s: Seq<EngineStock>) -> Seq<EngineStock>
    decreases s.len(),
{
    if s.len() == 0 {
        seq![]
    } else if s.last().quantity > 0 {
        positive_stocks(s.drop_last()).push(s.last())
    } else {
        positive_stocks(s.drop_last())
    }
}

/// Stock `j` after a rocket's engines are taken, oldest stock of each design first.
pub open spec fn stock_after_rocket(s: Seq<EngineStock>, stages: Seq<crate::rocket_design::RocketStage>, j: int) -> EngineStock {
    EngineStock { quantity: kept_quantity(s, j, engines_for(stages, s[j].engine_design_id)) as u32, ..s[j] }
}

/// The stocks after a rocket's engines are taken, oldest stock of each design first, with
/// emptied stocks dropped.
pub open spec fn stocks_after_rocket(s: Seq<EngineStock>, stages: Seq<crate::rocket_design::RocketStage>) -> Seq<EngineStock> {
    positive_stocks(Seq::new(s.len(), |j: int| stock_after_rocket(s, stages, j)))
}

/// Prefix counts agree on two stock lists whose shares of a design agree.
proof fn lemma_stock_before_same_shares(a: Seq<EngineStock>, b: Seq<EngineStock>, k: int, id: usize)
    requires
        0 <= k <= a.len(),
        k <= b.len(),
        forall|i: int| 0 <= i < k ==> stock_share(#[trigger] a[i], id) == stock_share(b[i], id),
    ensures
        stock_before(a, k, id) == stock_before(b, k, id),
    decreases k,
{
    if k > 0 {
        lemma_stock_before_same_shares(a, b, k - 1, id);
    }
}

/// Take `count` engines of design `id`, from the first stocks of that design onward.
fn take_engines(entries: &mut Vec<EngineStock>, id: usize, count: u32)
    requires
        count <= stock_of(old(entries)@, id),
    ensures
        final(entries)@.len() == old(entries)@.len(),
        forall|j: int|
            0 <= j < old(entries)@.len() ==> #[trigger] final(entries)@[j] == taken_stock(
                old(entries)@,
                j,
                id,
                count as nat,
            ),
        forall|x: usize| #[trigger] stock_of(final(entries)@, x) + (if x == id { count as nat } else { 0 })
            == stock_of(old(entries)@, x),
{
    let ghost orig = entries@;
    let mut remaining: u32 = count;
    let mut j: usize = 0;
    while j < entries.len()
        invariant
            entries@.len() == orig.len(),
            j <= orig.len(),
            remaining <= count,
            forall|k: int| j <= k < orig.len() ==> #[trigger] entries@[k] == orig[k],
            remaining <= stock_from(entries@, j as int, id),
            forall|x: usize| #[trigger] stock_of(entries@, x) + (if x == id { (count - remaining) as nat } else { 0 }) == stock_of(orig, x),
            forall|i: int| 0 <= i < j ==> #[trigger] entries@[i] == taken_stock(orig, i, id, count as nat),
            remaining == if stock_before(orig, j as int, id) >= count { 0 } else { count - stock_before(orig, j as int, id) },
        decreases orig.len() - j,
    {
        let e = entries[j];
        if e.engine_design_id == id && remaining > 0 {
            let take = if remaining < e.quantity {
                remaining
            } else {
                e.quantity
            };
            let updated = EngineStock { quantity: e.quantity - take, ..e };
            let ghost before = entries@;
            entries.set(j, updated);
            proof {
                assert forall|x: usize| #[trigger] stock_of(entries@, x) + (if x == id { (count - (remaining - take)) as nat } else { 0 }) == stock_of(orig, x) by {
                    lemma_stock_update(before, j as int, updated, 0, x);
                    assert(stock_of(before, x) + (if x == id { (count - remaining) as nat } else { 0 }) == stock_of(orig, x));
                    assert(before[j as int] == e);
                }
                lemma_stock_update(before, j as int, updated, j + 1, id);
            }
            remaining = remaining - take;
        }
        j = j + 1;
    }
}

/// The stocks that still hold engines, in their order.
fn remove_empty_stocks(entries: &Vec<EngineStock>) -> (kept: Vec<EngineStock>)
    ensures
        kept@ == positive_stocks(entries@),
        forall|x: usize| #[trigger] stock_of(kept@, x) == stock_of(entries@, x),
        forall|k: int| 0 <= k < kept@.len() ==> (#[trigger] kept@[k]).quantity > 0,
{
    let mut kept: Vec<EngineStock> = Vec::new();
    let mut i: usize = 0;
    while i < entries.len()
        invariant
            i <= entries@.len(),
            forall|x: usize| #[trigger] stock_of(kept@, x) + stock_from(entries@, i as int, x) == stock_of(entries@, x),
            forall|k: int| 0 <= k < kept@.len() ==> (#[trigger] kept@[k]).quantity > 0,
            kept@ == positive_stocks(entries@.take(i as int)),
        decreases entries@.len() - i,
    {
        let e = entries[i];
        proof {
            assert(entries@.take(i + 1).drop_last() =~= entries@.take(i as int));
            assert(entries@.take(i + 1).last() == e);
        }
        if e.quantity > 0 {
            let ghost before = kept@;
            kept.push(e);
            proof {
                assert forall|x: usize| #[trigger] stock_of(kept@, x) + stock_from(entries@, i + 1, x) == stock_of(entries@, x) by {
                    lemma_stock_push(before, e, 0, x);
                    assert(stock_of(before, x) + stock_from(entries@, i as int, x) == stock_of(entries@, x));
                    assert(stock_from(entries@, i as int, x) == stock_share(e, x) + stock_from(entries@, i + 1, x));
                }
            }
        }
        i = i + 1;
    }
    proof {
        assert(entries@.take(i as int) =~= entries@);
    }
    kept
}

/// Assembled rockets ready for launch, each with a unique serial number, and how many
/// rockets of each design were made.
#[derive(Debug, Clone)]
pub struct RocketInventory {
    pub entries: Vec<RocketInventoryEntry>,
    next_serial_number: u32,
    /// Number of rockets produced per design
    pub production_history: Vec<(usize, u32)>,
}

/// What a rocket inventory holds.
pub struct RocketInventoryView {
    pub entries: Seq<RocketInventoryEntry>,
    /// Serial number the next rocket will get
    pub next_serial_number: nat,
    pub production_history: Seq<(usize, u32)>,
}

impl RocketInventoryView {
    /// Serial numbers are positive, increase along the list and stay below the next one.
    pub open spec fn wf(self) -> bool {
        &&& self.next_serial_number >= 1
        &&& forall|k: int| 0 <= k < self.entries.len() ==> 1 <= (#[trigger] self.entries[k]).serial_number < self.next_serial_number
        &&& forall|a: int, b: int| 0 <= a < b < self.entries.len() ==> (#[trigger] self.entries[a]).serial_number < (#[trigger] self.entries[b]).serial_number
    }
}

impl View for RocketInventory {
    type V = RocketInventoryView;

    closed spec fn view(&self) -> RocketInventoryView {
        RocketInventoryView {
            entries: self.entries@,
            next_serial_number: self.next_serial_number as nat,
            production_history: self.production_history@,
        }
    }
}

impl RocketInventory {
    /// An empty inventory whose first rocket gets serial number 1.
    pub fn new() -> (inv: Self)
        ensures
            inv@.entries.len() == 0,
            inv@.next_serial_number == 1,
            inv@.production_history.len() == 0,
            inv@.wf(),
    {
        RocketInventory { entries: Vec::new(), next_serial_number: 1, production_history: Vec::new() }
    }

    /// Whether the serial numbers are well formed: positive, increasing along the list and
    /// below the next one.
    pub fn is_well_formed(&self) -> (b: bool)
        ensures
            b == self@.wf(),
    {
        if self.next_serial_number < 1 {
            return false;
        }
        let n = self.entries.len();
        let mut i: usize = 0;
        while i < n
            invariant
                n == self.entries@.len(),
                i <= n,
                self.next_serial_number >= 1,
                forall|k: int| 0 <= k < i ==> 1 <= (#[trigger] self.entries@[k]).serial_number < self.next_serial_number,
                forall|a: int, b: int| 0 <= a < b < n && a < i ==> (#[trigger] self.entries@[a]).serial_number < (#[trigger] self.entries@[b]).serial_number,
            decreases n - i,
        {
            let s = self.entries[i].serial_number;
            if s < 1 || s >= self.next_serial_number {
                proof {
                    assert(self@.entries[i as int].serial_number == s);
                }
                return false;
            }
            let mut j: usize = i + 1;
            while j < n
                invariant
                    n == self.entries@.len(),
                    i < j <= n,
                    s == self.entries@[i as int].serial_number,
                    forall|b: int| i < b < j ==> s < (#[trigger] self.entries@[b]).serial_number,
                decreases n - j,
            {
                if self.entries[j].serial_number <= s {
                    proof {
                        assert(self@.entries[i as int].serial_number == s);
                        assert(self@.entries[j as int].serial_number <= s);
                    }
                    return false;
                }
                j = j + 1;
            }
            proof {
                assert forall|a: int, b: int| 0 <= a < b < n && a < i + 1 implies (#[trigger] self.entries@[a]).serial_number < (#[trigger] self.entries@[b]).serial_number by {
                    if a == i {
                        assert(s < self.entries@[b].serial_number);
                    }
                }
            }
            i = i + 1;
        }
        true
    }

    /// Whether the production history has room for one more rocket of design `id`.
    pub fn has_history_room(&self, id: usize) -> (b: bool)
        ensures
            b == history_has_room(self@.production_history, id),
    {
        history_room(&self.production_history, id)
    }

    /// The serial number the next rocket will get.
    pub fn next_serial(&self) -> (n: u32)
        ensures
            n == self@.next_serial_number,
    {
        self.next_serial_number
    }

    /// Add a completed rocket under the next serial number; the design's production count
    /// grows by one.
    pub fn add_rocket_to_inventory(
        &mut self,
        rocket_design_id: usize,
        revision_number: u32,
        design_snapshot: RocketDesign,
    )
        requires
            old(self)@.wf(),
            old(self)@.next_serial_number < u32::MAX,
            history_has_room(old(self)@.production_history, rocket_design_id),
        ensures
            final(self)@.wf(),
            final(self)@.entries == old(self)@.entries.push(
                RocketInventoryEntry {
                    rocket_design_id,
                    revision_number,
                    design_snapshot,
                    serial_number: old(self)@.next_serial_number as u32,
                },
            ),
            final(self)@.next_serial_number == old(self)@.next_serial_number + 1,
            final(self)@.production_history == history_after(
                old(self)@.production_history,
                rocket_design_id,
            ),
    {
        let serial = self.next_serial_number;
        let ghost before = self.entries@;
        assert(before == old(self)@.entries);
        self.next_serial_number = self.next_serial_number + 1;
        self.entries.push(
            RocketInventoryEntry { rocket_design_id, revision_number, design_snapshot, serial_number: serial },
        );
        proof {
            assert forall|k: int| 0 <= k < self.entries@.len() implies 1 <= (#[trigger] self.entries@[k]).serial_number < self.next_serial_number by {
                if k < before.len() {
                    assert(self.entries@[k] == before[k]);
                    assert(1 <= old(self)@.entries[k].serial_number < old(self)@.next_serial_number);
                }
            }
            assert forall|a: int, b: int| 0 <= a < b < self.entries@.len() implies (#[trigger] self.entries@[a]).serial_number < (#[trigger] self.entries@[b]).serial_number by {
                assert(self.entries@[a] == before[a]);
                assert(1 <= old(self)@.entries[a].serial_number < old(self)@.next_serial_number);
                if b < before.len() {
                    assert(self.entries@[b] == before[b]);
                    assert(old(self)@.entries[a].serial_number < old(self)@.entries[b].serial_number);
                }
            }
        }
        record_production(&mut self.production_history, rocket_design_id);
    }

    /// Take the rocket with the given serial number out of inventory, if present.
    pub fn consume_rocket(&mut self, serial_number: u32) -> (r: Option<RocketInventoryEntry>)
        requires
            old(self)@.wf(),
        ensures
            final(self)@.wf(),
            final(self)@.next_serial_number == old(self)@.next_serial_number,
            final(self)@.production_history == old(self)@.production_history,
            match r {
                Some(e) => exists|k: int|
                    0 <= k < old(self)@.entries.len() && old(self)@.entries[k] == e
                        && e.serial_number == serial_number && final(self)@.entries
                        == old(self)@.entries.remove(k),
                None => final(self)@.entries == old(self)@.entries && forall|k: int|
                    0 <= k < old(self)@.entries.len() ==> (#[trigger] old(self)@.entries[k]).serial_number
                        != serial_number,
            },
            forall|k: int| 0 <= k < final(self)@.entries.len() ==> (#[trigger] final(self)@.entries[k]).serial_number != serial_number,
    {
        let mut k: usize = 0;
        while k < self.entries.len()
            invariant
                k <= self.entries@.len(),
                self@ == old(self)@,
                old(self)@.wf(),
                forall|j: int| 0 <= j < k ==> (#[trigger] self.entries@[j]).serial_number != serial_number,
            decreases self.entries@.len() - k,
        {
            if self.entries[k].serial_number == serial_number {
                let ghost before = self.entries@;
                assert(before == old(self)@.entries);
                assert(old(self)@.wf());
                let e = self.entries.remove(k);
                proof {
                    assert forall|j: int| 0 <= j < self.entries@.len() implies (#[trigger] self.entries@[j]).serial_number != serial_number by {
                        if j < k {
                            assert(self.entries@[j] == before[j]);
                        } else {
                            assert(self.entries@[j] == before[j + 1]);
                            assert(old(self)@.entries[k as int].serial_number < old(self)@.entries[j + 1].serial_number);
                        }
                    }
                    assert forall|a: int, b: int| 0 <= a < b < self.entries@.len() implies (#[trigger] self.entries@[a]).serial_number < (#[trigger] self.entries@[b]).serial_number by {
                        let a2 = if a < k { a } else { a + 1 };
                        let b2 = if b < k { b } else { b + 1 };
                        assert(self.entries@[a] == before[a2]);
                        assert(self.entries@[b] == before[b2]);
                        assert(old(self)@.entries[a2].serial_number < old(self)@.entries[b2].serial_number);
                    }
                    assert forall|j: int| 0 <= j < self.entries@.len() implies 1 <= (#[trigger] self.entries@[j]).serial_number < self@.next_serial_number by {
                        if j < k {
                            assert(self.entries@[j] == before[j]);
                        } else {
                            assert(self.entries@[j] == before[j + 1]);
                        }
                    }
                }
                return Some(e);
            }
            k = k + 1;
        }
        None
    }
}

/// In a well-formed rocket inventory no two rockets share a serial number.
pub proof fn lemma_serials_unique(inv: RocketInventoryView)
    requires
        inv.wf(),
    ensures
        forall|a: int, b: int|
            0 <= a < inv.entries.len() && 0 <= b < inv.entries.len() && a != b ==> (#[trigger] inv.entries[a]).serial_number
                != (#[trigger] inv.entries[b]).serial_number,
{
    assert forall|a: int, b: int|
        0 <= a < inv.entries.len() && 0 <= b < inv.entries.len() && a != b implies (#[trigger] inv.entries[a]).serial_number
            != (#[trigger] inv.entries[b]).serial_number by {
        if a < b {
        } else {
        }
    }
}

} // verus!
