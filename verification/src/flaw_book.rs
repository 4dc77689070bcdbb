//! The flaws of a design as a book of active and fixed entries: which ones are
//! discovered, which one to fix next, and the moves from active to fixed. Each entry
//! carries the caller's details (names and floating-point severities) untouched.

use vstd::prelude::*;

use crate::design_phase::DesignPhase;

verus! {

/// One flaw: its id, whether it was discovered and fixed, and the caller's details.
#[derive(Debug, Clone)]
pub struct FlawEntry<D> {
    pub id: u32,
    pub discovered: bool,
    pub fixed: bool,
    pub details: D,
}

/// The flaws of a design: those still active and those fixed, in the order they
/// joined each list.
#[derive(Debug, Clone)]
pub struct FlawBook<D> {
    pub active: Vec<FlawEntry<D>>,
    pub fixed: Vec<FlawEntry<D>>,
}

/// Which flaws a search looks for.
#[derive(Debug, Clone, Copy, PartialEq, Eq, Structural)]
pub enum FlawQuery {
    /// Discovered and not yet fixed: a flaw the player can have fixed
    Open,
    /// The flaw with this id, not yet discovered
    Undiscovered(u32),
    /// The flaw with this id, discovered
    Discovered(u32),
}

/// The entries a query looks for.
pub open spec fn query_pred<D>(q: FlawQuery) -> spec_fn(FlawEntry<D>) -> bool {
    |e: FlawEntry<D>|
        match q {
            FlawQuery::Open => e.discovered && !e.fixed,
            FlawQuery::Undiscovered(id) => e.id == id && !e.discovered,
            FlawQuery::Discovered(id) => e.id == id && e.discovered,
        }
}

/// Position of the first entry from position `i` on that satisfies `p` (the length when
/// there is none).
pub open spec fn first_where<D>(s: Seq<FlawEntry<D>>, p: spec_fn(FlawEntry<D>) -> bool, i: int) -> int
    decreases s.len() - i,
{
    if i < 0 || i >= s.len() {
        s.len() as int
    } else if p(s[i]) {
        i
    } else {
        first_where(s, p, i + 1)
    }
}

/// Positions of the entries that satisfy `p`, in order.
pub open spec fn positions_where<D>(s: Seq<FlawEntry<D>>, p: spec_fn(FlawEntry<D>) -> bool) -> Seq<usize>
    decreases s.len(),
{
    if s.len() == 0 {
        seq![]
    } else if p(s.last()) {
        positions_where(s.drop_last(), p).push((s.len() - 1) as usize)
    } else {
        positions_where(s.drop_last(), p)
    }
}

/// The entry once fixed.
pub open spec fn as_fixed<D>(e: FlawEntry<D>) -> FlawEntry<D> {
    FlawEntry { fixed: true, ..e }
}

/// The entry once discovered.
pub open spec fn as_discovered<D>(e: FlawEntry<D>) -> FlawEntry<D> {
    FlawEntry { discovered: true, ..e }
}

/// Facts about `first_where`: it lands on an entry that satisfies `p`, and no earlier one does.
pub proof fn lemma_first_where<D>(s: Seq<FlawEntry<D>>, p: spec_fn(FlawEntry<D>) -> bool, i: int)
    requires
        0 <= i <= s.len(),
    ensures
        i <= first_where(s, p, i) <= s.len(),
        first_where(s, p, i) < s.len() ==> p(s[first_where(s, p, i)]),
        forall|j: int| i <= j < first_where(s, p, i) ==> !p(#[trigger] s[j]),
    decreases s.len() - i,
{
    if i < s.len() && !p(s[i]) {
        lemma_first_where(s, p, i + 1);
    }
}

/// Whether an entry is one the query looks for.
fn query_hit<D>(e: &FlawEntry<D>, q: FlawQuery) -> (b: bool)
    ensures
        b == query_pred::<D>(q)(*e),
{
    match q {
        FlawQuery::Open => e.discovered && !e.fixed,
        FlawQuery::Undiscovered(id) => e.id == id && !e.discovered,
        FlawQuery::Discovered(id) => e.id == id && e.discovered,
    }
}

/// Position of the first entry of `v` that the query looks for, if any.
pub fn find_flaw<D>(v: &Vec<FlawEntry<D>>, q: FlawQuery) -> (r: Option<usize>)
    ensures
        match r {
            Some(k) => k == first_where(v@, query_pred(q), 0) && k < v@.len(),
            None => first_where(v@, query_pred(q), 0) == v@.len(),
        },
{
    let ghost p = query_pred::<D>(q);
    proof {
        lemma_first_where(v@, p, 0);
    }
    let mut k: usize = 0;
    while k < v.len()
        invariant
            k <= v@.len(),
            p == query_pred::<D>(q),
            forall|j: int| 0 <= j < k ==> !p(#[trigger] v@[j]),
            k <= first_where(v@, p, 0) <= v@.len(),
            first_where(v@, p, 0) < v@.len() ==> p(v@[first_where(v@, p, 0)]),
        decreases v@.len() - k,
    {
        if query_hit(&v[k], q) {
            proof {
                lemma_first_where(v@, p, 0);
                if (k as int) < first_where(v@, p, 0) {
                    assert(!p(v@[k as int]));
                }
            }
            return Some(k);
        }
        k = k + 1;
    }
    None
}

impl<D> FlawBook<D> {
    /// No flaws.
    pub fn new() -> (b: Self)
        ensures
            b.active@.len() == 0,
            b.fixed@.len() == 0,
    {
        FlawBook { active: Vec::new(), fixed: Vec::new() }
    }

    /// Index of the first active flaw that is discovered and not yet fixed.
    pub fn next_unfixed(&self) -> (r: Option<usize>)
        ensures
            match r {
                Some(k) => k == first_where(self.active@, query_pred(FlawQuery::Open), 0) && k < self.active@.len(),
                None => first_where(self.active@, query_pred(FlawQuery::Open), 0) == self.active@.len(),
            },
    {
        find_flaw(&self.active, FlawQuery::Open)
    }

    /// Indices of the active flaws that are discovered and not yet fixed, in order.
    pub fn unfixed_discovered_indices(&self) -> (v: Vec<usize>)
        ensures
            v@ == positions_where(self.active@, query_pred(FlawQuery::Open)),
    {
        let ghost p = query_pred::<D>(FlawQuery::Open);
        let mut v: Vec<usize> = Vec::new();
        let mut i: usize = 0;
        while i < self.active.len()
            invariant
                i <= self.active@.len(),
                p == query_pred::<D>(FlawQuery::Open),
                v@ == positions_where(self.active@.take(i as int), p),
            decreases self.active@.len() - i,
        {
            proof {
                assert(self.active@.take(i + 1).drop_last() =~= self.active@.take(i as int));
                assert(self.active@.take(i + 1).last() == self.active@[i as int]);
            }
            if self.active[i].discovered && !self.active[i].fixed {
                v.push(i);
            }
            i = i + 1;
        }
        proof {
            assert(self.active@.take(i as int) =~= self.active@);
        }
        v
    }

    /// Number of active flaws that are discovered and not yet fixed.
    pub fn discovered_unfixed_count(&self) -> (n: usize)
        ensures
            n == positions_where(self.active@, query_pred(FlawQuery::Open)).len(),
    {
        self.unfixed_discovered_indices().len()
    }

    /// The flaw to start fixing now: while the design is being tested, the first active
    /// flaw that is discovered and not yet fixed; in any other phase none.
    pub fn flaw_to_fix_next(&self, phase: DesignPhase) -> (r: Option<usize>)
        ensures
            phase != DesignPhase::Testing ==> r is None,
            phase == DesignPhase::Testing ==> match r {
                Some(k) => k == first_where(self.active@, query_pred(FlawQuery::Open), 0) && k < self.active@.len(),
                None => first_where(self.active@, query_pred(FlawQuery::Open), 0) == self.active@.len(),
            },
    {
        match phase {
            DesignPhase::Testing => self.next_unfixed(),
            _ => None,
        }
    }

    /// Whether a fix of the active flaw at `index` can start: only while the design is
    /// being tested, and only for a discovered flaw not yet fixed.
    pub fn can_start_fixing(&self, phase: DesignPhase, index: usize) -> (b: bool)
        ensures
            b == (phase == DesignPhase::Testing && index < self.active@.len() && self.active@[index as int].discovered
                && !self.active@[index as int].fixed),
    {
        match phase {
            DesignPhase::Testing => index < self.active.len() && self.active[index].discovered && !self.active[index].fixed,
            _ => false,
        }
    }

    /// Move the active flaw at `index` to the fixed list, marked fixed. Returns whether
    /// there was one there; otherwise nothing changes.
    pub fn move_to_fixed(&mut self, index: usize) -> (moved: bool)
        ensures
            moved == (index < old(self).active@.len()),
            moved ==> final(self).active@ == old(self).active@.remove(index as int),
            moved ==> final(self).fixed@ == old(self).fixed@.push(as_fixed(old(self).active@[index as int])),
            !moved ==> final(self).active@ == old(self).active@ && final(self).fixed@ == old(self).fixed@,
    {
        if index >= self.active.len() {
            return false;
        }
        let mut e = self.active.remove(index);
        e.fixed = true;
        self.fixed.push(e);
        true
    }

    /// Fix the active flaw at `index` if it was discovered: it moves to the fixed list.
    /// Returns whether it did; otherwise nothing changes.
    pub fn fix_by_index(&mut self, index: usize) -> (moved: bool)
        ensures
            moved == (index < old(self).active@.len() && old(self).active@[index as int].discovered),
            moved ==> final(self).active@ == old(self).active@.remove(index as int),
            moved ==> final(self).fixed@ == old(self).fixed@.push(as_fixed(old(self).active@[index as int])),
            !moved ==> final(self).active@ == old(self).active@ && final(self).fixed@ == old(self).fixed@,
    {
        if index < self.active.len() && self.active[index].discovered {
            self.move_to_fixed(index)
        } else {
            false
        }
    }

    /// Fix the first active flaw with id `id` that was discovered: it moves to the fixed
    /// list. Returns whether there was one; otherwise nothing changes.
    pub fn fix_by_id(&mut self, id: u32) -> (moved: bool)
        ensures
            ({
                let k = first_where(old(self).active@, query_pred(FlawQuery::Discovered(id)), 0);
                &&& moved == (k < old(self).active@.len())
                &&& moved ==> final(self).active@ == old(self).active@.remove(k)
                &&& moved ==> final(self).fixed@ == old(self).fixed@.push(as_fixed(old(self).active@[k]))
                &&& !moved ==> final(self).active@ == old(self).active@ && final(self).fixed@ == old(self).fixed@
            }),
    {
        match find_flaw(&self.active, FlawQuery::Discovered(id)) {
            Some(k) => self.move_to_fixed(k),
            None => false,
        }
    }

    /// Mark the active flaw at `index` discovered; nothing else changes.
    pub fn set_discovered(&mut self, index: usize)
        requires
            index < old(self).active@.len(),
        ensures
            final(self).active@ == old(self).active@.update(index as int, as_discovered(old(self).active@[index as int])),
            final(self).fixed@ == old(self).fixed@,
    {
        let mut e = self.active.remove(index);
        e.discovered = true;
        self.active.insert(index, e);
        proof {
            assert(self.active@ =~= old(self).active@.update(index as int, as_discovered(old(self).active@[index as int])));
        }
    }

    /// Mark the first active flaw with id `id` that is not yet discovered as discovered
    /// (after a failure revealed it). Returns its index, if there was one.
    pub fn mark_discovered(&mut self, id: u32) -> (r: Option<usize>)
        ensures
            ({
                let k = first_where(old(self).active@, query_pred(FlawQuery::Undiscovered(id)), 0);
                &&& match r {
                    Some(i) => i == k && k < old(self).active@.len() && final(self).active@ == old(
                        self,
                    ).active@.update(k, as_discovered(old(self).active@[k])),
                    None => k == old(self).active@.len() && final(self).active@ == old(self).active@,
                }
                &&& final(self).fixed@ == old(self).fixed@
            }),
    {
        match find_flaw(&self.active, FlawQuery::Undiscovered(id)) {
            Some(k) => {
                self.set_discovered(k);
                Some(k)
            },
            None => None,
        }
    }
}

/// The flaw picked to fix next can always have its fix started: it is active,
/// discovered and not yet fixed, and the design is being tested.
pub proof fn lemma_next_fix_can_start<D>(active: Seq<FlawEntry<D>>)
    requires
        first_where(active, query_pred(FlawQuery::Open), 0) < active.len(),
    ensures
        ({
            let k = first_where(active, query_pred(FlawQuery::Open), 0);
            active[k].discovered && !active[k].fixed
        }),
{
    lemma_first_where(active, query_pred::<D>(FlawQuery::Open), 0);
}

} // verus!
