//! Manufacturing state of a company: floor space, the active orders that hold it, and
//! the inventories that completed work fills. Work progress and costs of an order are
//! floating-point quantities kept by the caller beside the order's id.

use vstd::prelude::*;

use crate::inventory::{
    has_engines_for, history_after, history_has_room, history_room, stock_counts_fit, stock_of,
    stocks_after_add, stocks_after_rocket, EngineInventory, EngineStock, RocketInventory,
};
use crate::manufacturing::{
    floor_space_for_rocket, spec_floor_space_for_rocket, FloorSpace, ManufacturingOrderId,
    RocketInventoryEntry,
};
use crate::rocket_design::{engine_counts_fit, engines_for, total_engines, RocketDesign, RocketStage};

verus! {

/// What a manufacturing order builds.
#[derive(Debug, Clone)]
pub enum ManufacturingOrderType {
    /// Building engines from a frozen engine design revision
    Engine {
        engine_design_id: usize,
        revision_number: u32,
        /// Total quantity to build
        quantity: u32,
        /// How many have been completed so far
        completed: u32,
    },
    /// Assembling a rocket from a frozen rocket design revision
    Rocket { rocket_design_id: usize, revision_number: u32, design_snapshot: RocketDesign },
}

/// A manufacturing order: what it builds, the floor space it holds, and whether it waits
/// for engines.
#[derive(Debug, Clone)]
pub struct ManufacturingOrder {
    /// Unique order ID
    pub id: ManufacturingOrderId,
    /// What is being manufactured
    pub order_type: ManufacturingOrderType,
    /// Floor space units consumed by this order
    pub floor_space_used: usize,
    /// Whether this rocket order is waiting for engines to be manufactured
    pub waiting_for_engines: bool,
}

impl ManufacturingOrder {
    /// Whether this is an engine order.
    pub fn is_engine_order(&self) -> (b: bool)
        ensures
            b == (self.order_type is Engine),
    {
        match self.order_type {
            ManufacturingOrderType::Engine { .. } => true,
            _ => false,
        }
    }

    /// Whether this is a rocket order.
    pub fn is_rocket_order(&self) -> (b: bool)
        ensures
            b == (self.order_type is Rocket),
    {
        match self.order_type {
            ManufacturingOrderType::Rocket { .. } => true,
            _ => false,
        }
    }
}

/// The stages of a rocket order's design (none for an engine order).
pub open spec fn order_stages(o: ManufacturingOrder) -> Seq<RocketStage> {
    match o.order_type {
        ManufacturingOrderType::Rocket { design_snapshot, .. } => design_snapshot.stages@,
        _ => seq![],
    }
}

/// Floor space held by a list of orders.
pub open spec fn space_in_use(orders: Seq<ManufacturingOrder>) -> nat
    decreases orders.len(),
{
    if orders.len() == 0 {
        0
    } else {
        space_in_use(orders.drop_last()) + orders.last().floor_space_used as nat
    }
}

/// Engine units still to build for design `id` over a list of orders.
pub open spec fn pending_for(orders: Seq<ManufacturingOrder>, id: usize) -> nat
    decreases orders.len(),
{
    if orders.len() == 0 {
        0
    } else {
        pending_for(orders.drop_last(), id) + match orders.last().order_type {
            ManufacturingOrderType::Engine { engine_design_id, quantity, completed, .. } => if engine_design_id
                == id {
                (quantity - completed) as nat
            } else {
                0
            },
            _ => 0,
        }
    }
}

/// No engine order has built more than it was asked for.
pub open spec fn completions_fit(orders: Seq<ManufacturingOrder>) -> bool {
    forall|k: int|
        0 <= k < orders.len() ==> match (#[trigger] orders[k]).order_type {
            ManufacturingOrderType::Engine { quantity, completed, .. } => completed <= quantity,
            _ => true,
        }
}

/// For every rocket order, each engine design's count fits a `u32`.
pub open spec fn rocket_counts_fit(orders: Seq<ManufacturingOrder>) -> bool {
    forall|k: int| 0 <= k < orders.len() ==> engine_counts_fit(order_stages(#[trigger] orders[k]))
}

/// Whether the order at position `k` is a rocket order waiting for engines that the
/// stocks can supply once the waiting orders before it have taken theirs, in turn.
pub open spec fn unblocks(stock: Seq<EngineStock>, orders: Seq<ManufacturingOrder>, k: int) -> bool
    decreases k, 1int,
{
    if 0 <= k < orders.len() {
        &&& orders[k].order_type is Rocket
        &&& orders[k].waiting_for_engines
        &&& forall|id: usize|
            #[trigger] engines_for(order_stages(orders[k]), id) + taken_before(stock, orders, k, id) <= stock_of(
                stock,
                id,
            )
    } else {
        false
    }
}

/// Engines of design `id` taken by the orders before position `k` that were unblocked.
pub open spec fn taken_before(stock: Seq<EngineStock>, orders: Seq<ManufacturingOrder>, k: int, id: usize) -> nat
    decreases k, 0int,
{
    if k <= 0 {
        0
    } else {
        taken_before(stock, orders, k - 1, id) + if unblocks(stock, orders, k - 1) {
            engines_for(order_stages(orders[k - 1]), id)
        } else {
            0
        }
    }
}

/// The engine stocks once the orders before position `n` that were unblocked have taken
/// their engines, in turn.
pub open spec fn stock_after_unblocking(stock: Seq<EngineStock>, orders: Seq<ManufacturingOrder>, n: int) -> Seq<
    EngineStock,
>
    decreases n,
{
    if n <= 0 {
        stock
    } else if unblocks(stock, orders, n - 1) {
        stocks_after_rocket(stock_after_unblocking(stock, orders, n - 1), order_stages(orders[n - 1]))
    } else {
        stock_after_unblocking(stock, orders, n - 1)
    }
}

/// Ids of the orders before position `n` that were unblocked, in order.
pub open spec fn unblocked_ids(stock: Seq<EngineStock>, orders: Seq<ManufacturingOrder>, n: int) -> Seq<
    ManufacturingOrderId,
>
    decreases n,
{
    if n <= 0 {
        seq![]
    } else if unblocks(stock, orders, n - 1) {
        unblocked_ids(stock, orders, n - 1).push(orders[n - 1].id)
    } else {
        unblocked_ids(stock, orders, n - 1)
    }
}

/// The order at position `k` after unblocking: no longer waiting if it was unblocked.
pub open spec fn after_unblock(stock: Seq<EngineStock>, orders: Seq<ManufacturingOrder>, k: int) -> ManufacturingOrder {
    if unblocks(stock, orders, k) {
        ManufacturingOrder { waiting_for_engines: false, ..orders[k] }
    } else {
        orders[k]
    }
}

/// Position of the first order with the given id, from position `i` on (the length when
/// there is none).
pub open spec fn order_index(orders: Seq<ManufacturingOrder>, id: ManufacturingOrderId, i: int) -> int
    decreases orders.len() - i,
{
    if i < 0 || i >= orders.len() {
        orders.len() as int
    } else if orders[i].id == id {
        i
    } else {
        order_index(orders, id, i + 1)
    }
}

/// Facts about `order_index`: it lands on an order with the id, and no earlier one has it.
pub proof fn lemma_order_index(orders: Seq<ManufacturingOrder>, id: ManufacturingOrderId, i: int)
    requires
        0 <= i <= orders.len(),
    ensures
        i <= order_index(orders, id, i) <= orders.len(),
        order_index(orders, id, i) < orders.len() ==> orders[order_index(orders, id, i)].id == id,
        forall|j: int| i <= j < order_index(orders, id, i) ==> (#[trigger] orders[j]).id != id,
    decreases orders.len() - i,
{
    if i < orders.len() && orders[i].id != id {
        lemma_order_index(orders, id, i + 1);
    }
}

/// The engine order at `k` with `more` units added to its quantity.
pub open spec fn with_more_units(o: ManufacturingOrder, more: u32) -> ManufacturingOrder {
    match o.order_type {
        ManufacturingOrderType::Engine { engine_design_id, revision_number, quantity, completed } => ManufacturingOrder {
            order_type: ManufacturingOrderType::Engine {
                engine_design_id,
                revision_number,
                quantity: (quantity + more) as u32,
                completed,
            },
            ..o
        },
        _ => o,
    }
}

/// The engine order `o` with one more unit completed.
pub open spec fn with_unit_done(o: ManufacturingOrder) -> ManufacturingOrder {
    match o.order_type {
        ManufacturingOrderType::Engine { engine_design_id, revision_number, quantity, completed } => ManufacturingOrder {
            order_type: ManufacturingOrderType::Engine {
                engine_design_id,
                revision_number,
                quantity,
                completed: (completed + 1) as u32,
            },
            ..o
        },
        _ => o,
    }
}

/// What finishing one unit of an order produced.
#[derive(Debug, Clone, Copy, PartialEq, Eq, Structural)]
pub enum UnitBuilt {
    /// An engine went into inventory; `order_complete` when it was the order's last unit
    Engine { engine_design_id: usize, revision_number: u32, order_complete: bool },
    /// A rocket was assembled and stored under `serial_number`; its order is complete
    Rocket { rocket_design_id: usize, revision_number: u32, serial_number: u32 },
}

/// All manufacturing state for a company.
#[derive(Debug, Clone)]
pub struct Manufacturing {
    /// Built and constructing floor space
    pub floor: FloorSpace,
    /// Active manufacturing orders
    pub active_orders: Vec<ManufacturingOrder>,
    /// Engine inventory (grouped by design and revision)
    pub engines: EngineInventory,
    /// Assembled rockets ready for launch
    pub rockets: RocketInventory,
    /// Next order ID
    next_order_id: ManufacturingOrderId,
}

/// What the manufacturing state holds.
pub struct ManufacturingView {
    pub floor: FloorSpace,
    pub orders: Seq<ManufacturingOrder>,
    pub engines: EngineInventory,
    pub rockets: RocketInventory,
    /// The id the next order will get
    pub next_id: nat,
}

impl View for Manufacturing {
    type V = ManufacturingView;

    closed spec fn view(&self) -> ManufacturingView {
        ManufacturingView {
            floor: self.floor,
            orders: self.active_orders@,
            engines: self.engines,
            rockets: self.rockets,
            next_id: self.next_order_id as nat,
        }
    }
}

impl ManufacturingView {
    /// Floor space not held by any order (none when orders hold more than is built).
    pub open spec fn free_space(self) -> nat {
        if self.floor.floor_space_total >= space_in_use(self.orders) {
            (self.floor.floor_space_total - space_in_use(self.orders)) as nat
        } else {
            0
        }
    }

    /// Order ids are positive, distinct, and below the next id to hand out.
    pub open spec fn ids_wf(self) -> bool {
        &&& self.next_id >= 1
        &&& forall|k: int| 0 <= k < self.orders.len() ==> 1 <= (#[trigger] self.orders[k]).id < self.next_id
        &&& forall|a: int, b: int|
            0 <= a < self.orders.len() && 0 <= b < self.orders.len() && a != b
                ==> (#[trigger] self.orders[a]).id != (#[trigger] self.orders[b]).id
    }
}

impl Manufacturing {

    /// Starting floor space, no orders, empty inventories; the first order gets id 1.
    pub fn new() -> (m: Self)
        ensures
            m@.floor.floor_space_total == crate::manufacturing::STARTING_FLOOR_SPACE,
            m@.floor.floor_space_under_construction@.len() == 0,
            m@.orders.len() == 0,
            m@.engines.entries@.len() == 0,
            m@.engines.production_history@.len() == 0,
            m@.rockets@.entries.len() == 0,
            m@.rockets@.next_serial_number == 1,
            m@.rockets@.production_history.len() == 0,
            m@.rockets@.wf(),
            m@.next_id == 1,
            m@.ids_wf(),
    {
        Manufacturing {
            floor: FloorSpace::new(),
            active_orders: Vec::new(),
            engines: EngineInventory::new(),
            rockets: RocketInventory::new(),
            next_order_id: 1,
        }
    }

    /// Floor space currently in use by active orders.
    pub fn floor_space_in_use(&self) -> (n: usize)
        requires
            space_in_use(self@.orders) <= usize::MAX,
        ensures
            n == space_in_use(self@.orders),
    {
        let orders = &self.active_orders;
        let mut sum: usize = 0;
        let mut i: usize = 0;
        while i < orders.len()
            invariant
                i <= orders@.len(),
                sum == space_in_use(orders@.take(i as int)),
                space_in_use(orders@) <= usize::MAX,
            decreases orders@.len() - i,
        {
            proof {
                lemma_space_in_use_prefix(orders@, i + 1);
                assert(orders@.take(i + 1).drop_last() =~= orders@.take(i as int));
            }
            sum = sum + orders[i].floor_space_used;
            i = i + 1;
        }
        proof {
            assert(orders@.take(i as int) =~= orders@);
        }
        sum
    }

    /// Floor space in use by active orders, or `None` when the sum does not fit a `usize`.
    pub fn checked_floor_space_in_use(&self) -> (r: Option<usize>)
        ensures
            match r {
                Some(n) => n == space_in_use(self@.orders),
                None => space_in_use(self@.orders) > usize::MAX,
            },
    {
        let orders = &self.active_orders;
        let mut sum: usize = 0;
        let mut i: usize = 0;
        while i < orders.len()
            invariant
                i <= orders@.len(),
                orders@ == self@.orders,
                sum == space_in_use(orders@.take(i as int)),
            decreases orders@.len() - i,
        {
            proof {
                assert(orders@.take(i + 1).drop_last() =~= orders@.take(i as int));
            }
            match sum.checked_add(orders[i].floor_space_used) {
                Some(t) => sum = t,
                None => {
                    proof {
                        lemma_space_in_use_prefix(orders@, i + 1);
                    }
                    return None;
                },
            }
            i = i + 1;
        }
        proof {
            assert(orders@.take(i as int) =~= orders@);
        }
        Some(sum)
    }

    /// The id the next order will get.
    pub fn next_order_id(&self) -> (n: ManufacturingOrderId)
        ensures
            n == self@.next_id,
    {
        self.next_order_id
    }

    /// Whether the order ids are well formed: positive, distinct and below the next id.
    pub fn ids_well_formed(&self) -> (b: bool)
        ensures
            b == self@.ids_wf(),
    {
        if self.next_order_id < 1 {
            return false;
        }
        let n = self.active_orders.len();
        let mut i: usize = 0;
        while i < n
            invariant
                n == self@.orders.len(),
                self@.orders == self.active_orders@,
                i <= n,
                self@.next_id >= 1,
                forall|k: int| 0 <= k < i ==> 1 <= (#[trigger] self@.orders[k]).id < self@.next_id,
                forall|a: int, b: int|
                    0 <= a < n && 0 <= b < n && a != b && (a < i || b < i) ==> (#[trigger] self@.orders[a]).id
                        != (#[trigger] self@.orders[b]).id,
            decreases n - i,
        {
            let id = self.active_orders[i].id;
            if id < 1 || id >= self.next_order_id {
                proof {
                    assert(self@.orders[i as int].id == id);
                }
                return false;
            }
            let mut j: usize = i + 1;
            while j < n
                invariant
                    n == self@.orders.len(),
                    self@.orders == self.active_orders@,
                    i < j <= n,
                    id == self@.orders[i as int].id,
                    forall|b: int| i < b < j ==> id != (#[trigger] self@.orders[b]).id,
                decreases n - j,
            {
                if self.active_orders[j].id == id {
                    proof {
                        assert(self@.orders[j as int].id == id);
                        assert(self@.orders[i as int].id == id);
                    }
                    return false;
                }
                j = j + 1;
            }
            proof {
                assert forall|a: int, b: int|
                    0 <= a < n && 0 <= b < n && a != b && (a < i + 1 || b < i + 1) implies (#[trigger] self@.orders[a]).id
                        != (#[trigger] self@.orders[b]).id by {
                    if a == i && b > i {
                        assert(id != self@.orders[b].id);
                    } else if b == i && a > i {
                        assert(id != self@.orders[a].id);
                    }
                }
            }
            i = i + 1;
        }
        true
    }

    /// Whether a new order may be started here: the floor space in use fits a `usize`,
    /// the ids are well formed and another id is left to hand out.
    pub fn can_start_order(&self) -> (b: bool)
        ensures
            b == (space_in_use(self@.orders) <= usize::MAX && self@.ids_wf() && self@.next_id
                < u32::MAX),
    {
        self.checked_floor_space_in_use().is_some() && self.ids_well_formed() && self.next_order_id
            < u32::MAX
    }

    /// Floor space available for new orders (none when orders hold more than is built).
    pub fn floor_space_available(&self) -> (n: usize)
        requires
            space_in_use(self@.orders) <= usize::MAX,
        ensures
            n == self@.free_space(),
    {
        self.floor.floor_space_total.saturating_sub(self.floor_space_in_use())
    }

    /// Whether an engine order needing `space_needed` units fits the free floor space.
    pub fn can_start_engine_order_with_space(&self, space_needed: usize) -> (b: bool)
        requires
            space_in_use(self@.orders) <= usize::MAX,
        ensures
            b == (space_needed <= self@.free_space()),
    {
        space_needed <= self.floor_space_available()
    }

    /// Whether a rocket order needing `space_needed` units fits the free floor space.
    pub fn can_start_rocket_order_with_space(&self, space_needed: usize) -> (b: bool)
        requires
            space_in_use(self@.orders) <= usize::MAX,
        ensures
            b == (space_needed <= self@.free_space()),
    {
        space_needed <= self.floor_space_available()
    }

    /// Start an engine order taking `space_needed` floor units: it gets the next id and
    /// joins the end of the active orders. `None`, with nothing changed, when the space
    /// is not free.
    pub fn start_engine_order(
        &mut self,
        engine_design_id: usize,
        revision_number: u32,
        space_needed: usize,
        quantity: u32,
    ) -> (r: Option<ManufacturingOrderId>)
        requires
            space_in_use(old(self)@.orders) <= usize::MAX,
            old(self)@.ids_wf(),
            old(self)@.next_id < u32::MAX,
        ensures
            final(self)@.ids_wf(),
            final(self)@.floor == old(self)@.floor,
            final(self)@.engines == old(self)@.engines,
            final(self)@.rockets == old(self)@.rockets,
            match r {
                Some(id) => {
                    &&& space_needed <= old(self)@.free_space()
                    &&& id == old(self)@.next_id
                    &&& final(self)@.next_id == old(self)@.next_id + 1
                    &&& final(self)@.orders == old(self)@.orders.push(
                        ManufacturingOrder {
                            id,
                            order_type: ManufacturingOrderType::Engine {
                                engine_design_id,
                                revision_number,
                                quantity,
                                completed: 0,
                            },
                            floor_space_used: space_needed,
                            waiting_for_engines: false,
                        },
                    )
                },
                None => {
                    &&& space_needed > old(self)@.free_space()
                    &&& final(self)@.orders == old(self)@.orders
                    &&& final(self)@.next_id == old(self)@.next_id
                },
            },
    {
        if !self.can_start_engine_order_with_space(space_needed) {
            return None;
        }
        let order_id = self.next_order_id;
        self.next_order_id = self.next_order_id + 1;
        let ghost before = self.active_orders@;
        self.active_orders.push(
            ManufacturingOrder {
                id: order_id,
                order_type: ManufacturingOrderType::Engine {
                    engine_design_id,
                    revision_number,
                    quantity,
                    completed: 0,
                },
                floor_space_used: space_needed,
                waiting_for_engines: false,
            },
        );
        proof {
            lemma_push_keeps_ids(before, self.active_orders@, order_id, self.next_order_id as nat);
        }
        Some(order_id)
    }

    /// Start a rocket assembly order; it takes the floor space the design needs, gets the
    /// next id and joins the end of the active orders, waiting for engines if asked to.
    /// `None`, with nothing changed, when the space is not free.
    pub fn start_rocket_order(
        &mut self,
        rocket_design_id: usize,
        revision_number: u32,
        design_snapshot: RocketDesign,
        waiting_for_engines: bool,
    ) -> (r: Option<ManufacturingOrderId>)
        requires
            total_engines(design_snapshot.stages@) <= u32::MAX,
            spec_floor_space_for_rocket(design_snapshot.stages@) <= usize::MAX,
            space_in_use(old(self)@.orders) <= usize::MAX,
            old(self)@.ids_wf(),
            old(self)@.next_id < u32::MAX,
        ensures
            final(self)@.ids_wf(),
            final(self)@.floor == old(self)@.floor,
            final(self)@.engines == old(self)@.engines,
            final(self)@.rockets == old(self)@.rockets,
            match r {
                Some(id) => {
                    &&& spec_floor_space_for_rocket(design_snapshot.stages@) <= old(self)@.free_space()
                    &&& id == old(self)@.next_id
                    &&& final(self)@.next_id == old(self)@.next_id + 1
                    &&& final(self)@.orders == old(self)@.orders.push(
                        ManufacturingOrder {
                            id,
                            order_type: ManufacturingOrderType::Rocket {
                                rocket_design_id,
                                revision_number,
                                design_snapshot,
                            },
                            floor_space_used: spec_floor_space_for_rocket(design_snapshot.stages@) as usize,
                            waiting_for_engines,
                        },
                    )
                },
                None => {
                    &&& spec_floor_space_for_rocket(design_snapshot.stages@) > old(self)@.free_space()
                    &&& final(self)@.orders == old(self)@.orders
                    &&& final(self)@.next_id == old(self)@.next_id
                },
            },
    {
        let space_needed = floor_space_for_rocket(&design_snapshot);
        if !self.can_start_rocket_order_with_space(space_needed) {
            return None;
        }
        let order_id = self.next_order_id;
        self.next_order_id = self.next_order_id + 1;
        let ghost before = self.active_orders@;
        self.active_orders.push(
            ManufacturingOrder {
                id: order_id,
                order_type: ManufacturingOrderType::Rocket {
                    rocket_design_id,
                    revision_number,
                    design_snapshot,
                },
                floor_space_used: space_needed,
                waiting_for_engines,
            },
        );
        proof {
            lemma_push_keeps_ids(before, self.active_orders@, order_id, self.next_order_id as nat);
        }
        Some(order_id)
    }

    /// Find the order position with the given id (the first one), if any.
    fn find_order(&self, order_id: ManufacturingOrderId) -> (r: Option<usize>)
        ensures
            match r {
                Some(k) => k == order_index(self@.orders, order_id, 0) && k < self@.orders.len(),
                None => order_index(self@.orders, order_id, 0) == self@.orders.len(),
            },
    {
        proof {
            lemma_order_index(self@.orders, order_id, 0);
        }
        let mut k: usize = 0;
        while k < self.active_orders.len()
            invariant
                self@.orders == self.active_orders@,
                k <= self@.orders.len(),
                forall|j: int| 0 <= j < k ==> (#[trigger] self@.orders[j]).id != order_id,
                k <= order_index(self@.orders, order_id, 0) <= self@.orders.len(),
                order_index(self@.orders, order_id, 0) < self@.orders.len() ==> self@.orders[order_index(
                    self@.orders,
                    order_id,
                    0,
                )].id == order_id,
            decreases self@.orders.len() - k,
        {
            if self.active_orders[k].id == order_id {
                proof {
                    lemma_order_index(self@.orders, order_id, 0);
                    if (k as int) < order_index(self@.orders, order_id, 0) {
                        assert(self@.orders[k as int].id != order_id);
                    }
                }
                return Some(k);
            }
            k = k + 1;
        }
        None
    }

    /// Cancel the order with the given id (material is not refunded). Returns whether one
    /// was found and removed.
    pub fn cancel_order(&mut self, order_id: ManufacturingOrderId) -> (found: bool)
        ensures
            found == (order_index(old(self)@.orders, order_id, 0) < old(self)@.orders.len()),
            found ==> final(self)@.orders == old(self)@.orders.remove(order_index(old(self)@.orders, order_id, 0)),
            !found ==> final(self)@.orders == old(self)@.orders,
            final(self)@.floor == old(self)@.floor,
            final(self)@.engines == old(self)@.engines,
            final(self)@.rockets == old(self)@.rockets,
            final(self)@.next_id == old(self)@.next_id,
            old(self)@.ids_wf() ==> final(self)@.ids_wf(),
    {
        match self.find_order(order_id) {
            Some(k) => {
                let ghost before = self.active_orders@;
                self.active_orders.remove(k);
                proof {
                    let after = self.active_orders@;
                    if old(self)@.ids_wf() {
                        assert forall|j: int| 0 <= j < after.len() implies 1 <= (#[trigger] after[j]).id
                            < old(self)@.next_id by {
                            if j < k {
                                assert(after[j] == before[j]);
                            } else {
                                assert(after[j] == before[j + 1]);
                            }
                        }
                        assert forall|a: int, b: int|
                            0 <= a < after.len() && 0 <= b < after.len() && a != b implies (#[trigger] after[a]).id
                                != (#[trigger] after[b]).id by {
                            let a2 = if a < k { a } else { a + 1 };
                            let b2 = if b < k { b } else { b + 1 };
                            assert(after[a] == before[a2]);
                            assert(after[b] == before[b2]);
                        }
                    }
                }
                true
            },
            None => false,
        }
    }

    /// Add `quantity_to_add` units to the engine order with the given id. Returns whether
    /// that order exists and is an engine order; otherwise nothing changes.
    pub fn increase_engine_order_quantity(
        &mut self,
        order_id: ManufacturingOrderId,
        quantity_to_add: u32,
    ) -> (done: bool)
        requires
            order_index(old(self)@.orders, order_id, 0) < old(self)@.orders.len() ==> match old(
                self,
            )@.orders[order_index(old(self)@.orders, order_id, 0)].order_type {
                ManufacturingOrderType::Engine { quantity, .. } => quantity + quantity_to_add <= u32::MAX,
                _ => true,
            },
        ensures
            done == (order_index(old(self)@.orders, order_id, 0) < old(self)@.orders.len()
                && old(self)@.orders[order_index(old(self)@.orders, order_id, 0)].order_type is Engine),
            done ==> final(self)@.orders == old(self)@.orders.update(
                order_index(old(self)@.orders, order_id, 0),
                with_more_units(old(self)@.orders[order_index(old(self)@.orders, order_id, 0)], quantity_to_add),
            ),
            !done ==> final(self)@.orders == old(self)@.orders,
            final(self)@.floor == old(self)@.floor,
            final(self)@.engines == old(self)@.engines,
            final(self)@.rockets == old(self)@.rockets,
            final(self)@.next_id == old(self)@.next_id,
            old(self)@.ids_wf() ==> final(self)@.ids_wf(),
    {
        let k = match self.find_order(order_id) {
            Some(k) => k,
            None => return false,
        };
        let o = &self.active_orders[k];
        let updated = match o.order_type {
            ManufacturingOrderType::Engine { engine_design_id, revision_number, quantity, completed } => {
                ManufacturingOrder {
                    id: o.id,
                    order_type: ManufacturingOrderType::Engine {
                        engine_design_id,
                        revision_number,
                        quantity: quantity + quantity_to_add,
                        completed,
                    },
                    floor_space_used: o.floor_space_used,
                    waiting_for_engines: o.waiting_for_engines,
                }
            },
            _ => return false,
        };
        let ghost before = self.active_orders@;
        self.active_orders.set(k, updated);
        proof {
            let after = self.active_orders@;
            assert(after[k as int].id == before[k as int].id);
            if old(self)@.ids_wf() {
                assert forall|j: int| 0 <= j < after.len() implies 1 <= (#[trigger] after[j]).id
                    < old(self)@.next_id by {
                    if j != k {
                        assert(after[j] == before[j]);
                    }
                }
                assert forall|a: int, b: int|
                    0 <= a < after.len() && 0 <= b < after.len() && a != b implies (#[trigger] after[a]).id
                        != (#[trigger] after[b]).id by {
                    assert(after[a].id == before[a].id);
                    assert(after[b].id == before[b].id);
                }
            }
        }
        true
    }

    /// Whether `complete_unit` may be called for the order with the given id: the rocket
    /// inventory is well formed, and the counts the unit adds to still fit.
    pub fn can_complete_unit(&self, order_id: ManufacturingOrderId) -> (b: bool)
        ensures
            b == (self@.rockets@.wf() && (order_index(self@.orders, order_id, 0) < self@.orders.len()
                ==> match self@.orders[order_index(self@.orders, order_id, 0)].order_type {
                ManufacturingOrderType::Engine { engine_design_id, completed, .. } => {
                    &&& completed < u32::MAX
                    &&& stock_of(self@.engines.entries@, engine_design_id) < u32::MAX
                    &&& history_has_room(self@.engines.production_history@, engine_design_id)
                },
                ManufacturingOrderType::Rocket { rocket_design_id, .. } => {
                    &&& self@.rockets@.next_serial_number < u32::MAX
                    &&& history_has_room(self@.rockets@.production_history, rocket_design_id)
                },
            })),
    {
        if !self.rockets.is_well_formed() {
            return false;
        }
        let k = match self.find_order(order_id) {
            Some(k) => k,
            None => return true,
        };
        match &self.active_orders[k].order_type {
            ManufacturingOrderType::Engine { engine_design_id, completed, .. } => {
                let fits = match self.engines.checked_engines_available(*engine_design_id) {
                    Some(n) => n < u32::MAX,
                    None => false,
                };
                *completed < u32::MAX && fits && history_room(
                    &self.engines.production_history,
                    *engine_design_id,
                )
            },
            ManufacturingOrderType::Rocket { rocket_design_id, .. } => {
                self.rockets.next_serial() < u32::MAX && self.rockets.has_history_room(*rocket_design_id)
            },
        }
    }

    /// Finish one unit of the order with the given id. An engine unit joins the engine
    /// inventory and counts toward the order, which leaves the active orders with its last
    /// unit; a rocket is stored under the next serial number and its order leaves the
    /// active orders. `None`, with nothing changed, when there is no such order or it is
    /// still waiting for engines (it does no work then).
    pub fn complete_unit(&mut self, order_id: ManufacturingOrderId) -> (r: Option<UnitBuilt>)
        requires
            old(self)@.rockets@.wf(),
            order_index(old(self)@.orders, order_id, 0) < old(self)@.orders.len() ==> match old(
                self,
            )@.orders[order_index(old(self)@.orders, order_id, 0)].order_type {
                ManufacturingOrderType::Engine { engine_design_id, completed, .. } => {
                    &&& completed < u32::MAX
                    &&& stock_of(old(self)@.engines.entries@, engine_design_id) < u32::MAX
                    &&& history_has_room(old(self)@.engines.production_history@, engine_design_id)
                },
                ManufacturingOrderType::Rocket { rocket_design_id, .. } => {
                    &&& old(self)@.rockets@.next_serial_number < u32::MAX
                    &&& history_has_room(old(self)@.rockets@.production_history, rocket_design_id)
                },
            },
        ensures
            ({
                let k = order_index(old(self)@.orders, order_id, 0);
                match r {
                    None => {
                        &&& (k == old(self)@.orders.len() || old(self)@.orders[k].waiting_for_engines)
                        &&& final(self)@.orders == old(self)@.orders
                        &&& final(self)@.engines == old(self)@.engines
                        &&& final(self)@.rockets == old(self)@.rockets
                    },
                    Some(u) => {
                        &&& k < old(self)@.orders.len()
                        &&& !old(self)@.orders[k].waiting_for_engines
                        &&& match old(self)@.orders[k].order_type {
                            ManufacturingOrderType::Engine {
                                engine_design_id,
                                revision_number,
                                quantity,
                                completed,
                            } => {
                                &&& u == UnitBuilt::Engine {
                                    engine_design_id,
                                    revision_number,
                                    order_complete: completed + 1 >= quantity,
                                }
                                &&& final(self)@.engines.entries@ == stocks_after_add(
                                    old(self)@.engines.entries@,
                                    engine_design_id,
                                    revision_number,
                                )
                                &&& final(self)@.engines.production_history@ == history_after(
                                    old(self)@.engines.production_history@,
                                    engine_design_id,
                                )
                                &&& final(self)@.rockets == old(self)@.rockets
                                &&& final(self)@.orders == if completed + 1 >= quantity {
                                    old(self)@.orders.remove(k)
                                } else {
                                    old(self)@.orders.update(k, with_unit_done(old(self)@.orders[k]))
                                }
                            },
                            ManufacturingOrderType::Rocket {
                                rocket_design_id,
                                revision_number,
                                design_snapshot,
                            } => {
                                &&& u == UnitBuilt::Rocket {
                                    rocket_design_id,
                                    revision_number,
                                    serial_number: old(self)@.rockets@.next_serial_number as u32,
                                }
                                &&& final(self)@.rockets@.entries == old(self)@.rockets@.entries.push(
                                    RocketInventoryEntry {
                                        rocket_design_id,
                                        revision_number,
                                        design_snapshot,
                                        serial_number: old(self)@.rockets@.next_serial_number as u32,
                                    },
                                )
                                &&& final(self)@.rockets@.next_serial_number == old(
                                    self,
                                )@.rockets@.next_serial_number + 1
                                &&& final(self)@.rockets@.production_history == history_after(
                                    old(self)@.rockets@.production_history,
                                    rocket_design_id,
                                )
                                &&& final(self)@.engines == old(self)@.engines
                                &&& final(self)@.orders == old(self)@.orders.remove(k)
                            },
                        }
                    },
                }
            }),
            final(self)@.rockets@.wf(),
            final(self)@.floor == old(self)@.floor,
            final(self)@.next_id == old(self)@.next_id,
            old(self)@.ids_wf() ==> final(self)@.ids_wf(),
    {
        let k = match self.find_order(order_id) {
            Some(k) => k,
            None => return None,
        };
        if self.active_orders[k].waiting_for_engines {
            return None;
        }
        let ghost before = self.active_orders@;
        let o = self.active_orders.remove(k);
        proof {
            lemma_remove_keeps_ids(before, k as int, self.active_orders@, self.next_order_id as nat);
        }
        match o.order_type {
            ManufacturingOrderType::Engine { engine_design_id, revision_number, quantity, completed } => {
                self.engines.add_engine_to_inventory(engine_design_id, revision_number);
                let done = completed + 1;
                if done < quantity {
                    let updated = ManufacturingOrder {
                        id: o.id,
                        order_type: ManufacturingOrderType::Engine {
                            engine_design_id,
                            revision_number,
                            quantity,
                            completed: done,
                        },
                        floor_space_used: o.floor_space_used,
                        waiting_for_engines: o.waiting_for_engines,
                    };
                    self.active_orders.insert(k, updated);
                    proof {
                        assert(self.active_orders@ =~= before.update(k as int, with_unit_done(before[k as int])));
                        lemma_update_keeps_ids(before, k as int, self.active_orders@, self.next_order_id as nat);
                    }
                }
                Some(UnitBuilt::Engine { engine_design_id, revision_number, order_complete: done >= quantity })
            },
            ManufacturingOrderType::Rocket { rocket_design_id, revision_number, design_snapshot } => {
                let serial_number = self.rockets.next_serial();
                self.rockets.add_rocket_to_inventory(rocket_design_id, revision_number, design_snapshot);
                Some(UnitBuilt::Rocket { rocket_design_id, revision_number, serial_number })
            },
        }
    }

    /// Ids of the active orders, in order.
    pub fn active_order_ids(&self) -> (v: Vec<ManufacturingOrderId>)
        ensures
            v@ == self@.orders.map_values(|o: ManufacturingOrder| o.id),
    {
        let mut v: Vec<ManufacturingOrderId> = Vec::new();
        let mut i: usize = 0;
        while i < self.active_orders.len()
            invariant
                i <= self@.orders.len(),
                self@.orders == self.active_orders@,
                v@ == self@.orders.take(i as int).map_values(|o: ManufacturingOrder| o.id),
            decreases self@.orders.len() - i,
        {
            v.push(self.active_orders[i].id);
            i = i + 1;
            proof {
                assert(v@ =~= self@.orders.take(i as int).map_values(|o: ManufacturingOrder| o.id));
            }
        }
        proof {
            assert(self@.orders.take(i as int) =~= self@.orders);
        }
        v
    }

    /// The order with the given id (the first one), if any.
    pub fn get_order(&self, order_id: ManufacturingOrderId) -> (r: Option<&ManufacturingOrder>)
        ensures
            match r {
                Some(o) => order_index(self@.orders, order_id, 0) < self@.orders.len() && *o
                    == self@.orders[order_index(self@.orders, order_id, 0)],
                None => order_index(self@.orders, order_id, 0) == self@.orders.len(),
            },
    {
        match self.find_order(order_id) {
            Some(k) => Some(&self.active_orders[k]),
            None => None,
        }
    }

    /// Engine units still to build (quantity less completed) over the active engine
    /// orders for a design; used to avoid ordering the same engines twice.
    pub fn engines_pending_for_design(&self, engine_design_id: usize) -> (n: u32)
        requires
            completions_fit(self@.orders),
            pending_for(self@.orders, engine_design_id) <= u32::MAX,
        ensures
            n == pending_for(self@.orders, engine_design_id),
    {
        let orders = &self.active_orders;
        let mut sum: u32 = 0;
        let mut i: usize = 0;
        while i < orders.len()
            invariant
                orders@ == self@.orders,
                completions_fit(orders@),
                i <= orders@.len(),
                sum == pending_for(orders@.take(i as int), engine_design_id),
                pending_for(orders@, engine_design_id) <= u32::MAX,
            decreases orders@.len() - i,
        {
            proof {
                lemma_pending_prefix(orders@, i + 1, engine_design_id);
                assert(orders@.take(i + 1).drop_last() =~= orders@.take(i as int));
                assert(orders@.take(i + 1).last() == orders@[i as int]);
            }
            match orders[i].order_type {
                ManufacturingOrderType::Engine { engine_design_id: eid, quantity, completed, .. } => {
                    if eid == engine_design_id {
                        sum = sum + (quantity - completed);
                    }
                },
                _ => {},
            }
            i = i + 1;
        }
        proof {
            assert(orders@.take(i as int) =~= orders@);
        }
        sum
    }

    /// Whether `try_unblock_rocket_orders` may be called: each rocket order's count of
    /// each engine design, and every design's engine stock, fit a `u32`.
    pub fn can_unblock(&self) -> (b: bool)
        ensures
            b == (rocket_counts_fit(self@.orders) && stock_counts_fit(self@.engines.entries@)),
    {
        let mut i: usize = 0;
        while i < self.active_orders.len()
            invariant
                i <= self@.orders.len(),
                self@.orders == self.active_orders@,
                forall|k: int| 0 <= k < i ==> engine_counts_fit(order_stages(#[trigger] self@.orders[k])),
            decreases self@.orders.len() - i,
        {
            match &self.active_orders[i].order_type {
                ManufacturingOrderType::Rocket { design_snapshot, .. } => {
                    if !design_snapshot.engine_counts_fit() {
                        proof {
                            assert(order_stages(self@.orders[i as int]) == design_snapshot.stages@);
                        }
                        return false;
                    }
                },
                _ => {
                    proof {
                        assert(order_stages(self@.orders[i as int]) =~= seq![]);
                    }
                },
            }
            i = i + 1;
        }
        self.engines.counts_fit()
    }

    /// Try to unblock rocket orders waiting for engines, oldest order first: each one whose
    /// engines are all in stock takes them and stops waiting. Returns the ids of the
    /// unblocked orders, in order.
    pub fn try_unblock_rocket_orders(&mut self) -> (unblocked: Vec<ManufacturingOrderId>)
        requires
            rocket_counts_fit(old(self)@.orders),
            stock_counts_fit(old(self)@.engines.entries@),
        ensures
            unblocked@ == unblocked_ids(
                old(self)@.engines.entries@,
                old(self)@.orders,
                old(self)@.orders.len() as int,
            ),
            final(self)@.orders.len() == old(self)@.orders.len(),
            forall|k: int|
                0 <= k < old(self)@.orders.len() ==> #[trigger] final(self)@.orders[k] == after_unblock(
                    old(self)@.engines.entries@,
                    old(self)@.orders,
                    k,
                ),
            forall|id: usize|
                #[trigger] stock_of(final(self)@.engines.entries@, id) + taken_before(
                    old(self)@.engines.entries@,
                    old(self)@.orders,
                    old(self)@.orders.len() as int,
                    id,
                ) == stock_of(old(self)@.engines.entries@, id),
            final(self)@.engines.entries@ == stock_after_unblocking(
                old(self)@.engines.entries@,
                old(self)@.orders,
                old(self)@.orders.len() as int,
            ),
            final(self)@.engines.production_history@ == old(self)@.engines.production_history@,
            final(self)@.floor == old(self)@.floor,
            final(self)@.rockets == old(self)@.rockets,
            final(self)@.next_id == old(self)@.next_id,
            old(self)@.ids_wf() ==> final(self)@.ids_wf(),
    {
        let ghost stock0 = self.engines.entries@;
        let ghost orders0 = self.active_orders@;
        let mut unblocked: Vec<ManufacturingOrderId> = Vec::new();
        let mut k: usize = 0;
        while k < self.active_orders.len()
            invariant
                stock0 == old(self)@.engines.entries@,
                orders0 == old(self)@.orders,
                rocket_counts_fit(orders0),
                self.active_orders@.len() == orders0.len(),
                k <= orders0.len(),
                forall|j: int| 0 <= j < k ==> #[trigger] self.active_orders@[j] == after_unblock(stock0, orders0, j),
                forall|j: int| k <= j < orders0.len() ==> #[trigger] self.active_orders@[j] == orders0[j],
                forall|id: usize|
                    #[trigger] stock_of(self.engines.entries@, id) + taken_before(stock0, orders0, k as int, id)
                        == stock_of(stock0, id),
                stock_counts_fit(stock0),
                unblocked@ == unblocked_ids(stock0, orders0, k as int),
                self.engines.entries@ == stock_after_unblocking(stock0, orders0, k as int),
                self.engines.production_history@ == old(self)@.engines.production_history@,
                self.floor == old(self)@.floor,
                self.rockets == old(self)@.rockets,
                self.next_order_id == old(self)@.next_id,
            decreases orders0.len() - k,
        {
            let ghost entries_now = self.engines.entries@;
            proof {
                assert(self.active_orders@[k as int] == orders0[k as int]);
                assert forall|id: usize| #[trigger] stock_of(entries_now, id) <= u32::MAX by {
                    assert(stock_of(entries_now, id) + taken_before(stock0, orders0, k as int, id) == stock_of(stock0, id));
                }
            }
            let mut ok = false;
            if self.active_orders[k].waiting_for_engines {
                match &self.active_orders[k].order_type {
                    ManufacturingOrderType::Rocket { design_snapshot, .. } => {
                        proof {
                            assert(engine_counts_fit(order_stages(orders0[k as int])));
                        }
                        if self.engines.has_engines_for_rocket(design_snapshot) {
                            self.engines.consume_engines_for_rocket(design_snapshot);
                            ok = true;
                        }
                    },
                    _ => {},
                }
            }
            proof {
                let stages = order_stages(orders0[k as int]);
                if unblocks(stock0, orders0, k as int) {
                    assert forall|id: usize| #[trigger] engines_for(stages, id) <= stock_of(entries_now, id) by {
                        assert(engines_for(stages, id) + taken_before(stock0, orders0, k as int, id) <= stock_of(stock0, id));
                    }
                    assert(has_engines_for(entries_now, stages));
                }
                if ok {
                    assert forall|id: usize| engines_for(stages, id) + taken_before(stock0, orders0, k as int, id)
                        <= stock_of(stock0, id) by {
                        assert(engines_for(stages, id) <= stock_of(entries_now, id));
                    }
                    assert(unblocks(stock0, orders0, k as int));
                }
                assert(ok == unblocks(stock0, orders0, k as int));
                assert forall|id: usize| #[trigger] stock_of(self.engines.entries@, id) + taken_before(stock0, orders0, k + 1, id)
                    == stock_of(stock0, id) by {
                    assert(stock_of(entries_now, id) + taken_before(stock0, orders0, k as int, id) == stock_of(stock0, id));
                }
            }
            if ok {
                let ghost before = self.active_orders@;
                let mut o = self.active_orders.remove(k);
                o.waiting_for_engines = false;
                let id = o.id;
                self.active_orders.insert(k, o);
                unblocked.push(id);
                proof {
                    assert forall|j: int| 0 <= j < orders0.len() && j != k implies #[trigger] self.active_orders@[j]
                        == before[j] by {
                        if j < k {
                            assert(self.active_orders@[j] == before[j]);
                        } else {
                            assert(self.active_orders@[j] == before[j]);
                        }
                    }
                    assert(self.active_orders@[k as int] == after_unblock(stock0, orders0, k as int));
                }
            }
            k = k + 1;
        }
        proof {
            if old(self)@.ids_wf() {
                let after = self.active_orders@;
                assert forall|j: int| 0 <= j < after.len() implies #[trigger] after[j].id == orders0[j].id by {
                    assert(after[j] == after_unblock(stock0, orders0, j));
                }
                assert forall|j: int| 0 <= j < after.len() implies 1 <= (#[trigger] after[j]).id
                    < old(self)@.next_id by {
                    assert(after[j].id == orders0[j].id);
                }
                assert forall|a: int, b: int|
                    0 <= a < after.len() && 0 <= b < after.len() && a != b implies (#[trigger] after[a]).id
                        != (#[trigger] after[b]).id by {
                    assert(after[a].id == orders0[a].id);
                    assert(after[b].id == orders0[b].id);
                }
            }
        }
        unblocked
    }
}

/// Pushing an order with a fresh id below the new next id keeps the ids well formed.
proof fn lemma_push_keeps_ids(
    before: Seq<ManufacturingOrder>,
    after: Seq<ManufacturingOrder>,
    id: ManufacturingOrderId,
    next: nat,
)
    requires
        after.len() == before.len() + 1,
        forall|k: int| 0 <= k < before.len() ==> after[k] == before[k],
        after[before.len() as int].id == id,
        forall|k: int| 0 <= k < before.len() ==> 1 <= (#[trigger] before[k]).id < id,
        forall|a: int, b: int|
            0 <= a < before.len() && 0 <= b < before.len() && a != b ==> (#[trigger] before[a]).id
                != (#[trigger] before[b]).id,
        1 <= id,
        next == id + 1,
    ensures
        forall|k: int| 0 <= k < after.len() ==> 1 <= (#[trigger] after[k]).id < next,
        forall|a: int, b: int|
            0 <= a < after.len() && 0 <= b < after.len() && a != b ==> (#[trigger] after[a]).id
                != (#[trigger] after[b]).id,
{
    assert forall|k: int| 0 <= k < after.len() implies 1 <= (#[trigger] after[k]).id < next by {
        if k < before.len() {
            assert(after[k] == before[k]);
        }
    }
    assert forall|a: int, b: int|
        0 <= a < after.len() && 0 <= b < after.len() && a != b implies (#[trigger] after[a]).id
            != (#[trigger] after[b]).id by {
        if a < before.len() {
            assert(after[a] == before[a]);
        }
        if b < before.len() {
            assert(after[b] == before[b]);
        }
    }
}

/// Removing the order at `k` keeps the ids well formed.
proof fn lemma_remove_keeps_ids(
    before: Seq<ManufacturingOrder>,
    k: int,
    after: Seq<ManufacturingOrder>,
    next: nat,
)
    requires
        0 <= k < before.len(),
        after == before.remove(k),
    ensures
        (forall|j: int| 0 <= j < before.len() ==> 1 <= (#[trigger] before[j]).id < next) ==> forall|
            j: int,
        |
            0 <= j < after.len() ==> 1 <= (#[trigger] after[j]).id < next,
        (forall|a: int, b: int|
            0 <= a < before.len() && 0 <= b < before.len() && a != b ==> (#[trigger] before[a]).id
                != (#[trigger] before[b]).id) ==> forall|a: int, b: int|
            0 <= a < after.len() && 0 <= b < after.len() && a != b ==> (#[trigger] after[a]).id
                != (#[trigger] after[b]).id,
{
    assert forall|j: int| 0 <= j < after.len() implies after[j] == before[if j < k { j } else { j + 1 }] by {}
    if forall|j: int| 0 <= j < before.len() ==> 1 <= (#[trigger] before[j]).id < next {
        assert forall|j: int| 0 <= j < after.len() implies 1 <= (#[trigger] after[j]).id < next by {
            assert(after[j] == before[if j < k { j } else { j + 1 }]);
        }
    }
    if forall|a: int, b: int|
        0 <= a < before.len() && 0 <= b < before.len() && a != b ==> (#[trigger] before[a]).id
            != (#[trigger] before[b]).id {
        assert forall|a: int, b: int|
            0 <= a < after.len() && 0 <= b < after.len() && a != b implies (#[trigger] after[a]).id
                != (#[trigger] after[b]).id by {
            let a2 = if a < k { a } else { a + 1 };
            let b2 = if b < k { b } else { b + 1 };
            assert(after[a] == before[a2]);
            assert(after[b] == before[b2]);
        }
    }
}

/// Replacing the order at `k` by one with the same id keeps the ids well formed.
proof fn lemma_update_keeps_ids(
    before: Seq<ManufacturingOrder>,
    k: int,
    after: Seq<ManufacturingOrder>,
    next: nat,
)
    requires
        0 <= k < before.len(),
        after.len() == before.len(),
        after[k].id == before[k].id,
        forall|j: int| 0 <= j < before.len() && j != k ==> after[j] == before[j],
    ensures
        (forall|j: int| 0 <= j < before.len() ==> 1 <= (#[trigger] before[j]).id < next) ==> forall|
            j: int,
        |
            0 <= j < after.len() ==> 1 <= (#[trigger] after[j]).id < next,
        (forall|a: int, b: int|
            0 <= a < before.len() && 0 <= b < before.len() && a != b ==> (#[trigger] before[a]).id
                != (#[trigger] before[b]).id) ==> forall|a: int, b: int|
            0 <= a < after.len() && 0 <= b < after.len() && a != b ==> (#[trigger] after[a]).id
                != (#[trigger] after[b]).id,
{
    assert forall|j: int| 0 <= j < after.len() implies (#[trigger] after[j]).id == before[j].id by {
        if j != k {
            assert(after[j] == before[j]);
        }
    }
}

/// Cancelling the order that was just started gives back the order book as it was: the
/// new order carries the next id, which no earlier order holds, so it is the one found
/// and removed.
pub proof fn lemma_cancel_undoes_start(m: ManufacturingView, o: ManufacturingOrder)
    requires
        m.ids_wf(),
        o.id == m.next_id,
    ensures
        order_index(m.orders.push(o), o.id, 0) == m.orders.len(),
        m.orders.push(o).remove(order_index(m.orders.push(o), o.id, 0)) == m.orders,
{
    let s = m.orders.push(o);
    lemma_order_index(s, o.id, 0);
    let k = order_index(s, o.id, 0);
    let n = m.orders.len() as int;
    assert(s[n] == o);
    if k < n {
        assert(s[k] == m.orders[k]);
        assert(1 <= m.orders[k].id < m.next_id);
    }
    if k > n {
        assert(s[n].id != o.id);
    }
    assert(s.remove(m.orders.len() as int) =~= m.orders);
}

/// A prefix of the orders has no more engines pending than all of them.
pub proof fn lemma_pending_prefix(orders: Seq<ManufacturingOrder>, n: int, id: usize)
    requires
        0 <= n <= orders.len(),
    ensures
        pending_for(orders.take(n), id) <= pending_for(orders, id),
    decreases orders.len() - n,
{
    if n < orders.len() {
        lemma_pending_prefix(orders, n + 1, id);
        assert(orders.take(n + 1).drop_last() =~= orders.take(n));
    } else {
        assert(orders.take(n) =~= orders);
    }
}

/// A prefix of the orders holds no more floor space than all of them.
pub proof fn lemma_space_in_use_prefix(orders: Seq<ManufacturingOrder>, n: int)
    requires
        0 <= n <= orders.len(),
    ensures
        space_in_use(orders.take(n)) <= space_in_use(orders),
    decreases orders.len() - n,
{
    if n < orders.len() {
        lemma_space_in_use_prefix(orders, n + 1);
        assert(orders.take(n + 1).drop_last() =~= orders.take(n));
    } else {
        assert(orders.take(n) =~= orders);
    }
}

} // verus!
