//! Progress of a flight along its mission legs: leg index, transit countdown,
//! location and status.

use vstd::prelude::*;

use crate::mission_plan::{
    leg_transit_days, lemma_transit_days_from_bounded, sum_transit_days, transit_days_from,
    MissionLeg, MissionPlan,
};

verus! {

/// Identifier of a flight.
pub type FlightId = u32;

/// Where a flight stands.
#[derive(Debug, Clone, Copy, PartialEq, Eq, Structural)]
pub enum FlightStatus {
    InTransit,
    AtLocation,
    Completed,
    Failed,
}

/// Where a flight is along the legs of its mission plan.
#[derive(Debug, Clone)]
pub struct FlightProgress {
    pub id: FlightId,
    pub design_lineage_index: usize,
    pub revision_number: u32,
    pub current_location: String,
    pub destination: String,
    pub status: FlightStatus,
    pub mission_plan: MissionPlan,
    pub current_leg_index: usize,
    /// Days remaining in transit for the current leg
    pub transit_days_remaining: u32,
}

/// Position of the first leg from position `i` on that takes transit time (the number of
/// legs when none does).
pub open spec fn next_timed_leg(legs: Seq<MissionLeg>, i: int) -> int
    decreases legs.len() - i,
{
    if i < 0 || i >= legs.len() {
        legs.len() as int
    } else if legs[i].transit_days > 0 {
        i
    } else {
        next_timed_leg(legs, i + 1)
    }
}

proof fn lemma_next_timed_leg(legs: Seq<MissionLeg>, i: int)
    requires
        0 <= i <= legs.len(),
    ensures
        i <= next_timed_leg(legs, i) <= legs.len(),
        next_timed_leg(legs, i) < legs.len() ==> legs[next_timed_leg(legs, i)].transit_days > 0,
        forall|j: int| i <= j < next_timed_leg(legs, i) ==> (#[trigger] legs[j]).transit_days == 0,
    decreases legs.len() - i,
{
    if i < legs.len() && legs[i].transit_days == 0 {
        lemma_next_timed_leg(legs, i + 1);
    }
}

impl FlightProgress {
    /// The flight's identity and plan, which no change of its progress touches.
    pub open spec fn same_flight(self, other: Self) -> bool {
        &&& self.id == other.id
        &&& self.design_lineage_index == other.design_lineage_index
        &&& self.revision_number == other.revision_number
        &&& self.destination == other.destination
        &&& self.mission_plan == other.mission_plan
    }

    /// Transit days left on the current leg and all later legs.
    pub open spec fn remaining_days(&self) -> nat {
        self.transit_days_remaining as nat + transit_days_from(self.mission_plan.legs@, self.current_leg_index + 1)
    }

    /// A new flight of a design revision, in transit from Earth's surface towards its
    /// destination, with the first leg's timer running.
    pub fn new(
        id: FlightId,
        lineage_index: usize,
        revision_number: u32,
        destination: &str,
        mission_plan: MissionPlan,
    ) -> (p: Self)
        ensures
            p.id == id,
            p.design_lineage_index == lineage_index,
            p.revision_number == revision_number,
            p.status == FlightStatus::InTransit,
            p.current_location@ == "earth_surface"@,
            p.destination@ == destination@,
            p.mission_plan == mission_plan,
            p.current_leg_index == 0,
            p.transit_days_remaining == leg_transit_days(mission_plan.legs@, 0),
    {
        let transit_days_remaining = if mission_plan.legs.len() > 0 {
            mission_plan.legs[0].transit_days
        } else {
            0
        };
        FlightProgress {
            id,
            design_lineage_index: lineage_index,
            revision_number,
            current_location: String::from_str("earth_surface"),
            destination: destination.to_string(),
            status: FlightStatus::InTransit,
            mission_plan,
            current_leg_index: 0,
            transit_days_remaining,
        }
    }

    /// Number of legs in the mission.
    pub fn leg_count(&self) -> (n: usize)
        ensures
            n == self.mission_plan.legs@.len(),
    {
        self.mission_plan.legs.len()
    }

    /// A specific leg of the mission.
    pub fn leg(&self, index: usize) -> (l: Option<&MissionLeg>)
        ensures
            index < self.mission_plan.legs@.len() ==> l == Some(&self.mission_plan.legs@[index as int]),
            index >= self.mission_plan.legs@.len() ==> l is None,
    {
        if index < self.mission_plan.legs.len() {
            Some(&self.mission_plan.legs[index])
        } else {
            None
        }
    }

    /// Set the transit timer from the current leg's transit days (zero past the last leg).
    pub fn start_current_leg_transit(&mut self)
        ensures
            final(self).transit_days_remaining == leg_transit_days(
                old(self).mission_plan.legs@,
                old(self).current_leg_index as int,
            ),
            final(self).status == old(self).status,
            final(self).current_location == old(self).current_location,
            final(self).same_flight(*old(self)),
            final(self).current_leg_index == old(self).current_leg_index,
    {
        self.transit_days_remaining = if self.current_leg_index < self.mission_plan.legs.len() {
            self.mission_plan.legs[self.current_leg_index].transit_days
        } else {
            0
        };
    }

    /// Advance past the current leg: the flight is now at that leg's destination and the
    /// next leg's transit timer starts. Past the last leg nothing changes.
    pub fn advance_leg(&mut self)
        ensures
            old(self).current_leg_index < old(self).mission_plan.legs@.len() ==> {
                &&& final(self).current_location@ == old(self).mission_plan.legs@[old(self).current_leg_index as int].to@
                &&& final(self).current_leg_index == old(self).current_leg_index + 1
                &&& final(self).transit_days_remaining == leg_transit_days(
                    old(self).mission_plan.legs@,
                    old(self).current_leg_index + 1,
                )
                &&& final(self).status == old(self).status
                &&& final(self).same_flight(*old(self))
            },
            old(self).current_leg_index >= old(self).mission_plan.legs@.len() ==> *final(self) == *old(self),
    {
        if self.current_leg_index < self.mission_plan.legs.len() {
            let to = self.mission_plan.legs[self.current_leg_index].to;
            self.current_location = to.to_string();
            self.current_leg_index = self.current_leg_index + 1;
            self.start_current_leg_transit();
        }
    }

    /// Tick one day of transit. Returns true when the current leg's transit is complete.
    pub fn tick_transit_day(&mut self) -> (done: bool)
        ensures
            final(self).transit_days_remaining == (if old(self).transit_days_remaining > 0 {
                old(self).transit_days_remaining - 1
            } else {
                0
            }),
            done == (final(self).transit_days_remaining == 0),
            final(self).status == old(self).status,
            final(self).current_location == old(self).current_location,
            final(self).same_flight(*old(self)),
            final(self).current_leg_index == old(self).current_leg_index,
    {
        if self.transit_days_remaining > 0 {
            self.transit_days_remaining = self.transit_days_remaining - 1;
        }
        self.transit_days_remaining == 0
    }

    /// Whether all legs are completed.
    pub fn all_legs_completed(&self) -> (b: bool)
        ensures
            b == (self.current_leg_index >= self.mission_plan.legs@.len()),
    {
        self.current_leg_index >= self.mission_plan.legs.len()
    }

    /// Total transit days remaining across the current and all later legs.
    pub fn total_transit_days_remaining(&self) -> (n: u32)
        requires
            self.remaining_days() <= u32::MAX,
        ensures
            n == self.remaining_days(),
    {
        let start: usize = if self.current_leg_index < self.mission_plan.legs.len() {
            self.current_leg_index + 1
        } else {
            self.mission_plan.legs.len()
        };
        proof {
            if self.current_leg_index >= self.mission_plan.legs@.len() {
                assert(transit_days_from(self.mission_plan.legs@, self.current_leg_index + 1) == 0);
                assert(transit_days_from(self.mission_plan.legs@, start as int) == 0);
            }
        }
        let later = sum_transit_days(&self.mission_plan.legs, start);
        self.transit_days_remaining + later
    }

    /// Mark the flight as failed at a leg; it is stranded at that leg's origin.
    pub fn fail_at_leg(&mut self, leg_index: usize)
        ensures
            final(self).status == FlightStatus::Failed,
            leg_index < old(self).mission_plan.legs@.len() ==> final(self).current_location@
                == old(self).mission_plan.legs@[leg_index as int].from@,
            leg_index >= old(self).mission_plan.legs@.len() ==> final(self).current_location == old(
                self,
            ).current_location,
            final(self).same_flight(*old(self)),
            final(self).current_leg_index == old(self).current_leg_index,
            final(self).transit_days_remaining == old(self).transit_days_remaining,
    {
        self.status = FlightStatus::Failed;
        if leg_index < self.mission_plan.legs.len() {
            let from = self.mission_plan.legs[leg_index].from;
            self.current_location = from.to_string();
        }
    }

    /// Mark the flight as completed: it is now at its destination.
    pub fn complete(&mut self)
        ensures
            final(self).status == FlightStatus::Completed,
            final(self).current_location == old(self).destination,
            final(self).same_flight(*old(self)),
            final(self).current_leg_index == old(self).current_leg_index,
            final(self).transit_days_remaining == old(self).transit_days_remaining,
    {
        self.status = FlightStatus::Completed;
        self.current_location = self.destination.clone();
    }

    /// Mark the flight as failed where it is.
    pub fn fail(&mut self)
        ensures
            final(self).status == FlightStatus::Failed,
            final(self).current_location == old(self).current_location,
            final(self).same_flight(*old(self)),
            final(self).current_leg_index == old(self).current_leg_index,
            final(self).transit_days_remaining == old(self).transit_days_remaining,
    {
        self.status = FlightStatus::Failed;
    }

    /// Whether a day of transit brings this flight to its destination: it is in transit,
    /// its current leg's timer runs out today, and every later leg takes no transit time.
    pub open spec fn arrives_today(self) -> bool {
        &&& self.status == FlightStatus::InTransit
        &&& self.transit_days_remaining <= 1
        &&& (self.current_leg_index >= self.mission_plan.legs@.len() || next_timed_leg(
            self.mission_plan.legs@,
            self.current_leg_index + 1,
        ) == self.mission_plan.legs@.len())
    }

    /// What a day of transit makes of flight `f`: only flights in transit move; the
    /// current leg's timer counts down, and when it runs out the flight passes that leg
    /// and every following leg that takes no time, stopping at the first leg that does
    /// (its timer starts) or at the end of the plan.
    pub open spec fn after_transit_day(f: Self, g: Self) -> bool {
        let legs = f.mission_plan.legs@;
        let n = legs.len();
        let i = f.current_leg_index as int;
        if f.status != FlightStatus::InTransit {
            g == f
        } else {
            &&& g.same_flight(f)
            &&& g.status == f.status
            &&& if f.transit_days_remaining > 1 {
                &&& g.transit_days_remaining == f.transit_days_remaining - 1
                &&& g.current_leg_index == f.current_leg_index
                &&& g.current_location == f.current_location
            } else if i >= n {
                &&& g.transit_days_remaining == 0
                &&& g.current_leg_index == f.current_leg_index
                &&& g.current_location == f.current_location
            } else {
                let j = next_timed_leg(legs, i + 1);
                &&& g.current_leg_index == j
                &&& g.current_location@ == legs[j - 1].to@
                &&& g.transit_days_remaining == leg_transit_days(legs, j)
            }
        }
    }

    /// One day of transit (see `after_transit_day`). Returns whether the flight arrived,
    /// having passed its last leg.
    pub fn process_transit_day(&mut self) -> (arrived: bool)
        ensures
            Self::after_transit_day(*old(self), *final(self)),
            arrived == old(self).arrives_today(),
    {
        match self.status {
            FlightStatus::InTransit => {},
            _ => return false,
        }
        let ghost f = *self;
        let ghost legs = self.mission_plan.legs@;
        let done = self.tick_transit_day();
        if !done {
            return false;
        }
        if self.all_legs_completed() {
            return true;
        }
        proof {
            lemma_next_timed_leg(legs, f.current_leg_index + 1);
        }
        loop
            invariant_except_break
                f.current_leg_index <= self.current_leg_index < legs.len(),
                self.transit_days_remaining == 0,
                self.current_leg_index + 1 <= next_timed_leg(legs, f.current_leg_index + 1),
            invariant
                self.same_flight(f),
                self.status == f.status,
                legs == self.mission_plan.legs@,
                legs == f.mission_plan.legs@,
                f.status == FlightStatus::InTransit,
                f.transit_days_remaining <= 1,
                f.current_leg_index < legs.len(),
                next_timed_leg(legs, f.current_leg_index + 1) <= legs.len(),
                next_timed_leg(legs, f.current_leg_index + 1) < legs.len() ==> legs[next_timed_leg(
                    legs,
                    f.current_leg_index + 1,
                )].transit_days > 0,
                forall|k: int|
                    f.current_leg_index + 1 <= k < next_timed_leg(legs, f.current_leg_index + 1) ==> (#[trigger] legs[k]).transit_days
                        == 0,
            ensures
                Self::after_transit_day(f, *self),
                self.current_leg_index >= legs.len() <==> f.arrives_today(),
            decreases legs.len() - self.current_leg_index,
        {
            self.advance_leg();
            if self.all_legs_completed() {
                break;
            }
            if self.transit_days_remaining > 0 {
                break;
            }
        }
        self.all_legs_completed()
    }

    /// Whether the flight is still active (in transit or at a location).
    pub fn is_active(&self) -> (b: bool)
        ensures
            b == (self.status == FlightStatus::InTransit || self.status == FlightStatus::AtLocation),
    {
        match self.status {
            FlightStatus::InTransit | FlightStatus::AtLocation => true,
            _ => false,
        }
    }
}

/// Ids of the flights that a day of transit brings to their destination, in order.
pub open spec fn arriving_ids(flights: Seq<FlightProgress>) -> Seq<FlightId>
    decreases flights.len(),
{
    if flights.len() == 0 {
        seq![]
    } else if flights.last().arrives_today() {
        arriving_ids(flights.drop_last()).push(flights.last().id)
    } else {
        arriving_ids(flights.drop_last())
    }
}

/// One day of transit for every flight (see `FlightProgress::after_transit_day`).
/// Returns the ids of the flights that arrived, in order.
pub fn process_flights(flights: &mut Vec<FlightProgress>) -> (arrived: Vec<FlightId>)
    ensures
        final(flights)@.len() == old(flights)@.len(),
        forall|k: int|
            0 <= k < old(flights)@.len() ==> FlightProgress::after_transit_day(
                #[trigger] old(flights)@[k],
                final(flights)@[k],
            ),
        arrived@ == arriving_ids(old(flights)@),
{
    let ghost before = flights@;
    let mut arrived: Vec<FlightId> = Vec::new();
    let mut i: usize = 0;
    while i < flights.len()
        invariant
            flights@.len() == before.len(),
            before == old(flights)@,
            i <= before.len(),
            forall|k: int| 0 <= k < i ==> FlightProgress::after_transit_day(#[trigger] before[k], flights@[k]),
            forall|k: int| i <= k < before.len() ==> #[trigger] flights@[k] == before[k],
            arrived@ == arriving_ids(before.take(i as int)),
        decreases before.len() - i,
    {
        let mut f = flights.remove(i);
        let id = f.id;
        let done = f.process_transit_day();
        flights.insert(i, f);
        proof {
            assert(before.take(i + 1).drop_last() =~= before.take(i as int));
            assert(before.take(i + 1).last() == before[i as int]);
        }
        if done {
            arrived.push(id);
        }
        i = i + 1;
    }
    proof {
        assert(before.take(i as int) =~= before);
    }
    arrived
}

/// Only ticking uses up transit time: a tick with days left removes exactly one day from
/// the flight's remaining total, and advancing past a finished leg (timer at zero)
/// leaves the remaining total unchanged.
pub proof fn lemma_remaining_days_accounting(legs: Seq<MissionLeg>, index: int, transit: u32)
    requires
        0 <= index,
    ensures
        transit > 0 ==> (transit - 1) + transit_days_from(legs, index + 1) + 1 == transit
            + transit_days_from(legs, index + 1),
        transit == 0 && index < legs.len() ==> leg_transit_days(legs, index + 1)
            + transit_days_from(legs, index + 2) == transit + transit_days_from(legs, index + 1),
{
    if transit == 0 && index < legs.len() {
        if index + 1 >= legs.len() {
            assert(transit_days_from(legs, index + 1) == 0);
            assert(transit_days_from(legs, index + 2) == 0);
        }
    }
}

} // verus!
