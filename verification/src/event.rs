//! Event importance and the bounded, timestamped event log.

use vstd::prelude::*;

use std::collections::VecDeque;
use std::collections::vec_deque::Iter;
use vstd::std_specs::iter::IteratorSpec;

use crate::calendar::GameDate;

verus! {

/// How important an event is, for UI display and pause decisions.
#[derive(Debug, Clone, Copy, PartialEq, Eq, Structural, PartialOrd, Ord)]
pub enum EventImportance {
    /// Routine housekeeping (month ticks). Shown dim.
    Routine,
    /// Notable events worth reading. Shown bright.
    Notable,
}

/// A timestamped log that keeps the most recent events (a ring buffer): once it holds
/// `max_size` events, each new one drops the oldest.
#[derive(Debug, Clone)]
pub struct EventLog<E> {
    events: VecDeque<(GameDate, E)>,
    max_size: usize,
}

/// What an event log holds: its events oldest first, and its capacity.
pub struct EventLogView<E> {
    pub events: Seq<(GameDate, E)>,
    pub max_size: nat,
}

/// The events kept after appending `item` to `events` in a log of capacity `max_size`.
pub open spec fn events_after_push<E>(events: Seq<(GameDate, E)>, max_size: nat, item: (GameDate, E)) -> Seq<(GameDate, E)> {
    if events.len() >= max_size && events.len() > 0 {
        events.drop_first().push(item)
    } else {
        events.push(item)
    }
}

impl<E> View for EventLog<E> {
    type V = EventLogView<E>;

    closed spec fn view(&self) -> EventLogView<E> {
        EventLogView { events: self.events@, max_size: self.max_size as nat }
    }
}

impl<E> EventLog<E> {
    /// An empty log keeping at most `max_size` events.
    pub fn new(max_size: usize) -> (l: Self)
        ensures
            l@.events.len() == 0,
            l@.max_size == max_size,
    {
        EventLog { events: VecDeque::with_capacity(max_size), max_size }
    }

    /// Push a new event. If at capacity, the oldest event is dropped.
    pub fn push(&mut self, date: GameDate, event: E)
        ensures
            final(self)@.max_size == old(self)@.max_size,
            final(self)@.events == events_after_push(old(self)@.events, old(self)@.max_size, (date, event)),
            old(self)@.events.len() < old(self)@.max_size ==> final(self)@.events == old(self)@.events.push(
                (date, event),
            ),
            old(self)@.events.len() >= old(self)@.max_size && old(self)@.events.len() > 0 ==> {
                &&& final(self)@.events.len() == old(self)@.events.len()
                &&& final(self)@.events == old(self)@.events.subrange(1, old(self)@.events.len() as int).push(
                    (date, event),
                )
            },
    {
        if self.events.len() >= self.max_size {
            self.events.pop_front();
        }
        self.events.push_back((date, event));
    }

    /// The `n` most recent events, newest first.
    pub fn recent(&self, n: usize) -> (v: Vec<&(GameDate, E)>)
        ensures
            v@.len() == (if n < self@.events.len() { n as int } else { self@.events.len() as int }),
            forall|k: int| 0 <= k < v@.len() ==> *v@[k] == self@.events[self@.events.len() - 1 - k],
    {
        let len = self.events.len();
        let mut v: Vec<&(GameDate, E)> = Vec::new();
        let mut k: usize = 0;
        while k < n && k < len
            invariant
                len == self@.events.len(),
                k <= len,
                k <= n,
                v@.len() == k,
                forall|j: int| 0 <= j < k ==> *v@[j] == self@.events[len - 1 - j],
            decreases len - k,
        {
            v.push(&self.events[len - 1 - k]);
            k = k + 1;
        }
        v
    }

    /// Total number of events currently stored.
    pub fn len(&self) -> (n: usize)
        ensures
            n == self@.events.len(),
    {
        self.events.len()
    }

    pub fn is_empty(&self) -> (b: bool)
        ensures
            b == (self@.events.len() == 0),
    {
        self.events.len() == 0
    }

    /// Iterate all events, oldest first.
    pub fn iter(&self) -> (it: Iter<'_, (GameDate, E)>)
        ensures
            it.remaining() == self@.events.as_ref(),
    {
        self.events.iter()
    }
}

/// A log never holds more than its capacity (or one event, for a capacity of zero), and
/// a push keeps the newest event last.
pub proof fn lemma_push_bounded<E>(events: Seq<(GameDate, E)>, max_size: nat, item: (GameDate, E))
    requires
        events.len() <= if max_size > 0 { max_size } else { 1 },
    ensures
        events_after_push(events, max_size, item).len() <= if max_size > 0 { max_size } else { 1 },
        events_after_push(events, max_size, item).last() == item,
        events.len() < max_size ==> events_after_push(events, max_size, item) == events.push(item),
{
}

/// Pushing onto a full log keeps it full: the oldest event, and only it, is dropped;
/// every other event keeps its order and the new one comes last. Pushing onto a log
/// with room drops nothing.
pub proof fn lemma_push_drops_only_oldest<E>(events: Seq<(GameDate, E)>, max_size: nat, item: (GameDate, E))
    ensures
        ({
            let after = events_after_push(events, max_size, item);
            &&& events.len() == max_size && max_size > 0 ==> {
                &&& after.len() == max_size
                &&& forall|k: int| 0 <= k < max_size - 1 ==> after[k] == events[k + 1]
                &&& after[max_size - 1] == item
            }
            &&& events.len() < max_size ==> {
                &&& after.len() == events.len() + 1
                &&& forall|k: int| 0 <= k < events.len() ==> after[k] == events[k]
                &&& after[events.len() as int] == item
            }
        }),
{
}

} // verus!
