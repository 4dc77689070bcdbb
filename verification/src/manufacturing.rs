//! Manufacturing bookkeeping: floor space, its construction, and what a rocket order
//! needs (floor space and engines by design).

use vstd::prelude::*;

use crate::rocket_design::{
    engine_counts_fit, engines_for, lemma_engines_for_le_total, lemma_total_engines_prefix, total_engines,
    uses_engine, RocketDesign, RocketStage,
};

verus! {

/// Days for new floor space to be constructed.
pub const FLOOR_SPACE_CONSTRUCTION_DAYS: u32 = 30;

/// Starting floor space units (enough for the default rocket: 2 stages * 2 + 6 engines
/// = 10, + 2 spare).
pub const STARTING_FLOOR_SPACE: usize = 12;

/// Unique id of a manufacturing order.
pub type ManufacturingOrderId = u32;

/// A floor space construction order (space being built).
#[derive(Debug, Clone, Copy, PartialEq, Eq, Structural)]
pub struct FloorSpaceOrder {
    /// Number of units being built
    pub units: usize,
    /// Days remaining until construction completes
    pub days_remaining: u32,
}

/// An entry in the rocket inventory (each rocket is unique).
#[derive(Debug, Clone)]
pub struct RocketInventoryEntry {
    /// Which rocket design lineage this came from
    pub rocket_design_id: usize,
    /// Which revision was used to build it
    pub revision_number: u32,
    /// Snapshot of the design at time of manufacture
    pub design_snapshot: RocketDesign,
    /// Unique serial number for this vehicle
    pub serial_number: u32,
}

/// Floor space needed to assemble a rocket: two units per stage plus one per engine.
pub open spec fn spec_floor_space_for_rocket(stages: Seq<RocketStage>) -> nat {
    2 * stages.len() + total_engines(stages)
}

/// Floor space needed for a rocket assembly order.
pub fn floor_space_for_rocket(design: &RocketDesign) -> (n: usize)
    requires
        total_engines(design.stages@) <= u32::MAX,
        spec_floor_space_for_rocket(design.stages@) <= usize::MAX,
    ensures
        n == spec_floor_space_for_rocket(design.stages@),
{
    let stage_space = design.stages.len() * 2;
    let mut engine_space: u32 = 0;
    let mut i: usize = 0;
    while i < design.stages.len()
        invariant
            i <= design.stages@.len(),
            engine_space == total_engines(design.stages@.take(i as int)),
            total_engines(design.stages@) <= u32::MAX,
        decreases design.stages@.len() - i,
    {
        proof {
            lemma_total_engines_prefix(design.stages@, i + 1);
            assert(design.stages@.take(i + 1).drop_last() =~= design.stages@.take(i as int));
        }
        engine_space = engine_space + design.stages[i].engine_count;
        i = i + 1;
    }
    proof {
        assert(design.stages@.take(i as int) =~= design.stages@);
    }
    stage_space + engine_space as usize
}

/// The engines a rocket design needs, as (engine design id, count) pairs: one pair per
/// engine design that some stage mounts, in increasing id order, with the total count
/// over all stages.
pub fn engines_required(design: &RocketDesign) -> (v: Vec<(usize, u32)>)
    requires
        engine_counts_fit(design.stages@),
    ensures
        forall|a: int, b: int| 0 <= a < b < v@.len() ==> (#[trigger] v@[a]).0 < (#[trigger] v@[b]).0,
        forall|a: int| 0 <= a < v@.len() ==> (#[trigger] v@[a]).1 == engines_for(design.stages@, v@[a].0),
        forall|id: usize| uses_engine(design.stages@, id) <==> exists|a: int| 0 <= a < v@.len() && (#[trigger] v@[a]).0 == id,
{
    let ghost stages = design.stages@;
    let mut v: Vec<(usize, u32)> = Vec::new();
    let mut i: usize = 0;
    while i < design.stages.len()
        invariant
            stages == design.stages@,
            i <= stages.len(),
            engine_counts_fit(stages),
            forall|a: int, b: int| 0 <= a < b < v@.len() ==> (#[trigger] v@[a]).0 < (#[trigger] v@[b]).0,
            forall|a: int| 0 <= a < v@.len() ==> (#[trigger] v@[a]).1 == engines_for(stages.take(i as int), v@[a].0),
            forall|id: usize| uses_engine(stages.take(i as int), id) <==> exists|a: int| 0 <= a < v@.len() && (#[trigger] v@[a]).0 == id,
        decreases stages.len() - i,
    {
        let stage = design.stages[i];
        let ghost pre = stages.take(i as int);
        let ghost post = stages.take(i + 1);
        proof {
            assert(post.drop_last() =~= pre);
            assert(post.last() == stage);
            assert forall|id: usize| #[trigger] engines_for(post, id) == engines_for(pre, id) + if stage.engine_design_id == id {
                stage.engine_count as nat
            } else {
                0
            } by {}
            assert forall|id: usize| uses_engine(post, id) <==> (uses_engine(pre, id) || stage.engine_design_id == id) by {
                if uses_engine(post, id) {
                    let k = choose|k: int| 0 <= k < post.len() && (#[trigger] post[k]).engine_design_id == id;
                    if k < pre.len() {
                        assert(pre[k] == post[k]);
                    }
                }
                if uses_engine(pre, id) {
                    let k = choose|k: int| 0 <= k < pre.len() && (#[trigger] pre[k]).engine_design_id == id;
                    assert(post[k] == pre[k]);
                }
                if stage.engine_design_id == id {
                    assert(post[i as int] == stage);
                }
            }
            crate::rocket_design::lemma_engines_for_prefix(stages, i + 1, stage.engine_design_id);
            assert(engines_for(stages, stage.engine_design_id) <= u32::MAX);
        }
        // Find the first entry whose id is not below the stage's engine id.
        let mut pos: usize = 0;
        while pos < v.len() && v[pos].0 < stage.engine_design_id
            invariant
                pos <= v@.len(),
                forall|a: int| 0 <= a < pos ==> (#[trigger] v@[a]).0 < stage.engine_design_id,
            decreases v@.len() - pos,
        {
            pos = pos + 1;
        }
        let ghost old_v = v@;
        if pos < v.len() && v[pos].0 == stage.engine_design_id {
            let (id, count) = v[pos];
            v.set(pos, (id, count + stage.engine_count));
            proof {
                assert forall|id2: usize| uses_engine(post, id2) implies exists|a: int| 0 <= a < v@.len() && (#[trigger] v@[a]).0 == id2 by {
                    if uses_engine(pre, id2) {
                        let a = choose|a: int| 0 <= a < old_v.len() && (#[trigger] old_v[a]).0 == id2;
                        assert(v@[a].0 == id2);
                    } else {
                        assert(v@[pos as int].0 == id2);
                    }
                }
                assert forall|id2: usize| (exists|a: int| 0 <= a < v@.len() && (#[trigger] v@[a]).0 == id2) implies uses_engine(post, id2) by {
                    let a = choose|a: int| 0 <= a < v@.len() && (#[trigger] v@[a]).0 == id2;
                    assert(old_v[a].0 == id2);
                }
            }
        } else {
            proof {
                if pos < old_v.len() {
                    assert(old_v[pos as int].0 > stage.engine_design_id);
                }
            }
            proof {
                assert(!uses_engine(pre, stage.engine_design_id)) by {
                    if uses_engine(pre, stage.engine_design_id) {
                        let a = choose|a: int| 0 <= a < old_v.len() && (#[trigger] old_v[a]).0 == stage.engine_design_id;
                        if a >= pos {
                            if a > pos {
                                assert(old_v[pos as int].0 < old_v[a].0);
                            }
                        }
                    }
                }
                crate::rocket_design::lemma_unused_engine_none(pre, stage.engine_design_id);
            }
            v.insert(pos, (stage.engine_design_id, stage.engine_count));
            proof {
                assert forall|a: int| 0 <= a < v@.len() implies (#[trigger] v@[a]).1 == engines_for(post, v@[a].0) by {
                    if a < pos {
                        assert(v@[a] == old_v[a]);
                    } else if a > pos {
                        assert(v@[a] == old_v[a - 1]);
                    }
                }
                assert forall|a: int, b: int| 0 <= a < b < v@.len() implies (#[trigger] v@[a]).0 < (#[trigger] v@[b]).0 by {
                    if b < pos {
                        assert(v@[a] == old_v[a] && v@[b] == old_v[b]);
                    } else if b == pos {
                        assert(v@[a] == old_v[a]);
                    } else if a < pos {
                        assert(v@[a] == old_v[a] && v@[b] == old_v[b - 1]);
                        assert(old_v[pos as int].0 > stage.engine_design_id);
                        if b - 1 > pos {
                            assert(old_v[pos as int].0 < old_v[b - 1].0);
                        }
                    } else if a == pos {
                        assert(v@[b] == old_v[b - 1]);
                        assert(old_v[pos as int].0 > stage.engine_design_id);
                        if b - 1 > pos {
                            assert(old_v[pos as int].0 < old_v[b - 1].0);
                        }
                    } else {
                        assert(v@[a] == old_v[a - 1] && v@[b] == old_v[b - 1]);
                    }
                }
                assert forall|id2: usize| uses_engine(post, id2) implies exists|a: int| 0 <= a < v@.len() && (#[trigger] v@[a]).0 == id2 by {
                    if uses_engine(pre, id2) {
                        let a = choose|a: int| 0 <= a < old_v.len() && (#[trigger] old_v[a]).0 == id2;
                        if a < pos {
                            assert(v@[a].0 == id2);
                        } else {
                            assert(v@[a + 1].0 == id2);
                        }
                    } else {
                        assert(v@[pos as int].0 == id2);
                    }
                }
                assert forall|id2: usize| (exists|a: int| 0 <= a < v@.len() && (#[trigger] v@[a]).0 == id2) implies uses_engine(post, id2) by {
                    let a = choose|a: int| 0 <= a < v@.len() && (#[trigger] v@[a]).0 == id2;
                    if a < pos {
                        assert(old_v[a].0 == id2);
                    } else if a > pos {
                        assert(old_v[a - 1].0 == id2);
                    }
                }
            }
        }
        i = i + 1;
    }
    proof {
        assert(stages.take(i as int) =~= stages);
    }
    v
}

/// Floor space of a company: what is built and what is under construction.
#[derive(Debug, Clone)]
pub struct FloorSpace {
    /// Total floor space units available
    pub floor_space_total: usize,
    /// Floor space currently under construction
    pub floor_space_under_construction: Vec<FloorSpaceOrder>,
}

/// Units over a list of construction orders.
pub open spec fn units_sum(orders: Seq<FloorSpaceOrder>) -> nat
    decreases orders.len(),
{
    if orders.len() == 0 {
        0
    } else {
        units_sum(orders.drop_last()) + orders.last().units as nat
    }
}

/// Units of the orders that finish in the coming day (one day left).
pub open spec fn finishing_units(orders: Seq<FloorSpaceOrder>) -> nat
    decreases orders.len(),
{
    if orders.len() == 0 {
        0
    } else {
        finishing_units(orders.drop_last()) + if orders.last().days_remaining == 1 {
            orders.last().units as nat
        } else {
            0
        }
    }
}

/// The construction orders a day later: each counts down one day, and those that reach
/// zero (or were already at zero) leave the list.
pub open spec fn orders_after_day(orders: Seq<FloorSpaceOrder>) -> Seq<FloorSpaceOrder>
    decreases orders.len(),
{
    if orders.len() == 0 {
        seq![]
    } else {
        let rest = orders_after_day(orders.drop_last());
        let o = orders.last();
        if o.days_remaining > 1 {
            rest.push(FloorSpaceOrder { units: o.units, days_remaining: (o.days_remaining - 1) as u32 })
        } else {
            rest
        }
    }
}

/// Orders that finish are no longer under construction; the others keep their units.
pub proof fn lemma_finishing_splits_units(orders: Seq<FloorSpaceOrder>)
    requires
        forall|k: int| 0 <= k < orders.len() ==> (#[trigger] orders[k]).days_remaining > 0,
    ensures
        units_sum(orders) == units_sum(orders_after_day(orders)) + finishing_units(orders),
        finishing_units(orders) <= units_sum(orders),
    decreases orders.len(),
{
    if orders.len() > 0 {
        let init = orders.drop_last();
        assert forall|k: int| 0 <= k < init.len() implies (#[trigger] init[k]).days_remaining > 0 by {
            assert(init[k] == orders[k]);
        }
        lemma_finishing_splits_units(init);
        assert(orders.last() == orders[orders.len() - 1]);
        let rest = orders_after_day(init);
        let o = orders.last();
        let o2 = FloorSpaceOrder { units: o.units, days_remaining: (o.days_remaining - 1) as u32 };
        assert(rest.push(o2).drop_last() =~= rest);
    }
}

impl FloorSpace {
    /// Starting floor space, nothing under construction.
    pub fn new() -> (f: Self)
        ensures
            f.floor_space_total == STARTING_FLOOR_SPACE,
            f.floor_space_under_construction@.len() == 0,
    {
        FloorSpace { floor_space_total: STARTING_FLOOR_SPACE, floor_space_under_construction: Vec::new() }
    }

    /// Every order under construction still has days to go.
    pub open spec fn wf(&self) -> bool {
        forall|k: int| 0 <= k < self.floor_space_under_construction@.len() ==> (#[trigger] self.floor_space_under_construction@[k]).days_remaining > 0
    }

    /// Total floor space currently under construction.
    pub fn floor_space_constructing(&self) -> (n: usize)
        requires
            units_sum(self.floor_space_under_construction@) <= usize::MAX,
        ensures
            n == units_sum(self.floor_space_under_construction@),
    {
        let orders = &self.floor_space_under_construction;
        let mut sum: usize = 0;
        let mut i: usize = 0;
        while i < orders.len()
            invariant
                i <= orders@.len(),
                sum == units_sum(orders@.take(i as int)),
                units_sum(orders@) <= usize::MAX,
            decreases orders@.len() - i,
        {
            proof {
                lemma_units_sum_prefix(orders@, i + 1);
                assert(orders@.take(i + 1).drop_last() =~= orders@.take(i as int));
            }
            sum = sum + orders[i].units;
            i = i + 1;
        }
        proof {
            assert(orders@.take(i as int) =~= orders@);
        }
        sum
    }

    /// Whether the built floor space plus all under construction fits a `usize` (what
    /// `process_construction` needs).
    pub fn can_process_construction(&self) -> (b: bool)
        ensures
            b == (self.floor_space_total + units_sum(self.floor_space_under_construction@) <= usize::MAX),
    {
        let orders = &self.floor_space_under_construction;
        let mut sum: usize = self.floor_space_total;
        let mut i: usize = 0;
        while i < orders.len()
            invariant
                i <= orders@.len(),
                orders@ == self.floor_space_under_construction@,
                sum == self.floor_space_total + units_sum(orders@.take(i as int)),
            decreases orders@.len() - i,
        {
            proof {
                assert(orders@.take(i + 1).drop_last() =~= orders@.take(i as int));
                assert(orders@.take(i + 1).last() == orders@[i as int]);
            }
            match sum.checked_add(orders[i].units) {
                Some(t) => sum = t,
                None => {
                    proof {
                        lemma_units_sum_prefix(orders@, i + 1);
                        assert(units_sum(orders@.take(i + 1)) == units_sum(orders@.take(i as int))
                            + orders@[i as int].units);
                    }
                    return false;
                },
            }
            i = i + 1;
        }
        proof {
            assert(orders@.take(i as int) =~= orders@);
        }
        true
    }

    /// Buy new floor space: starts a construction order of `units` taking
    /// `FLOOR_SPACE_CONSTRUCTION_DAYS` days.
    pub fn buy_floor_space(&mut self, units: usize)
        ensures
            final(self).floor_space_total == old(self).floor_space_total,
            final(self).floor_space_under_construction@ == old(self).floor_space_under_construction@.push(
                FloorSpaceOrder { units, days_remaining: FLOOR_SPACE_CONSTRUCTION_DAYS },
            ),
    {
        self.floor_space_under_construction.push(
            FloorSpaceOrder { units, days_remaining: FLOOR_SPACE_CONSTRUCTION_DAYS },
        );
    }

    /// Process one day of floor space construction; returns the units that completed
    /// construction this day, which join the total. An order already at zero days is
    /// not counted and leaves the list.
    pub fn process_construction(&mut self) -> (completed: usize)
        requires
            old(self).floor_space_total + units_sum(old(self).floor_space_under_construction@)
                <= usize::MAX,
        ensures
            completed == finishing_units(old(self).floor_space_under_construction@),
            final(self).floor_space_total == old(self).floor_space_total + completed,
            final(self).floor_space_under_construction@ == orders_after_day(
                old(self).floor_space_under_construction@,
            ),
            final(self).wf(),
    {
        let ghost orders = self.floor_space_under_construction@;
        let mut completed: usize = 0;
        let mut remaining: Vec<FloorSpaceOrder> = Vec::new();
        let mut i: usize = 0;
        while i < self.floor_space_under_construction.len()
            invariant
                orders == self.floor_space_under_construction@,
                i <= orders.len(),
                completed == finishing_units(orders.take(i as int)),
                remaining@ == orders_after_day(orders.take(i as int)),
                forall|k: int| 0 <= k < remaining@.len() ==> (#[trigger] remaining@[k]).days_remaining > 0,
                self.floor_space_total + units_sum(orders) <= usize::MAX,
            decreases orders.len() - i,
        {
            let order = self.floor_space_under_construction[i];
            proof {
                assert(orders.take(i + 1).drop_last() =~= orders.take(i as int));
                assert(orders.take(i + 1).last() == order);
                lemma_finishing_prefix(orders, i + 1);
            }
            if order.days_remaining > 0 {
                let days_left = order.days_remaining - 1;
                if days_left == 0 {
                    completed = completed + order.units;
                } else {
                    remaining.push(FloorSpaceOrder { units: order.units, days_remaining: days_left });
                }
            }
            i = i + 1;
        }
        proof {
            assert(orders.take(i as int) =~= orders);
            lemma_finishing_le_units(orders);
        }
        self.floor_space_total = self.floor_space_total + completed;
        self.floor_space_under_construction = remaining;
        completed
    }
}

/// A prefix of the orders holds no more units than all of them.
pub proof fn lemma_units_sum_prefix(orders: Seq<FloorSpaceOrder>, n: int)
    requires
        0 <= n <= orders.len(),
    ensures
        units_sum(orders.take(n)) <= units_sum(orders),
    decreases orders.len() - n,
{
    if n < orders.len() {
        lemma_units_sum_prefix(orders, n + 1);
        assert(orders.take(n + 1).drop_last() =~= orders.take(n));
    } else {
        assert(orders.take(n) =~= orders);
    }
}

/// The units finishing among a prefix of the orders are no more than all units.
pub proof fn lemma_finishing_prefix(orders: Seq<FloorSpaceOrder>, n: int)
    requires
        0 <= n <= orders.len(),
    ensures
        finishing_units(orders.take(n)) <= units_sum(orders),
{
    lemma_finishing_le_units(orders.take(n));
    lemma_units_sum_prefix(orders, n);
}

/// The units finishing in a day are part of all units under construction.
pub proof fn lemma_finishing_le_units(orders: Seq<FloorSpaceOrder>)
    ensures
        finishing_units(orders) <= units_sum(orders),
    decreases orders.len(),
{
    if orders.len() > 0 {
        lemma_finishing_le_units(orders.drop_last());
    }
}

/// Construction moves units from under construction to built: a day of construction
/// keeps built plus constructing unchanged.
pub proof fn lemma_construction_conserves_units(total: nat, orders: Seq<FloorSpaceOrder>)
    requires
        forall|k: int| 0 <= k < orders.len() ==> (#[trigger] orders[k]).days_remaining > 0,
    ensures
        (total + finishing_units(orders)) + units_sum(orders_after_day(orders)) == total + units_sum(orders),
{
    lemma_finishing_splits_units(orders);
}

} // verus!
