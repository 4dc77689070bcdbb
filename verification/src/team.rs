//! Teams of a company: their kind, what each one works on, the ramp-up that follows a new
//! assignment, and the roster that hires, fires and assigns them. Salaries and work
//! progress are floating-point quantities kept by the caller beside each team's id.

use vstd::prelude::*;

use crate::manufacturing::ManufacturingOrderId;
use crate::orders::{order_index, Manufacturing};

verus! {

/// Days a team needs after a new assignment before it is productive.
pub const RAMP_UP_DAYS: u32 = 7;

/// What kind of work a team does.
#[derive(Debug, Clone, Copy, PartialEq, Eq, Structural)]
pub enum TeamType {
    /// Designs rockets and engines
    Engineering,
    /// Builds engines and rockets on the factory floor
    Manufacturing,
}

/// What a team is working on.
#[derive(Debug, Clone, Copy, PartialEq, Eq, Structural)]
pub enum TeamTask {
    /// Engineering work on a rocket design
    RocketDesign { rocket_design_id: usize },
    /// Engineering work on an engine design
    EngineDesign { engine_design_id: usize },
    /// Building the units of a manufacturing order
    Manufacturing { order_id: ManufacturingOrderId },
}

/// The kind of team that can take a task: manufacturing orders need a manufacturing team,
/// design work an engineering team.
pub open spec fn spec_task_team_type(task: TeamTask) -> TeamType {
    match task {
        TeamTask::Manufacturing { .. } => TeamType::Manufacturing,
        _ => TeamType::Engineering,
    }
}

impl TeamTask {
    /// The kind of team that can do this work.
    pub fn team_type(&self) -> (t: TeamType)
        ensures
            t == spec_task_team_type(*self),
    {
        match self {
            TeamTask::Manufacturing { .. } => TeamType::Manufacturing,
            _ => TeamType::Engineering,
        }
    }
}

/// A team: its id, kind, current task and the days left before it is productive.
#[derive(Debug, Clone, Copy, PartialEq, Eq, Structural)]
pub struct Team {
    pub id: u32,
    pub team_type: TeamType,
    pub task: Option<TeamTask>,
    /// Days remaining in ramp-up (0 = fully productive)
    pub ramp_up_days_remaining: u32,
}

impl Team {
    /// A new team: unassigned and available at once (ramp-up starts with an assignment).
    pub fn new(id: u32, team_type: TeamType) -> (t: Self)
        ensures
            t == (Team { id, team_type, task: None, ramp_up_days_remaining: 0 }),
    {
        Team { id, team_type, task: None, ramp_up_days_remaining: 0 }
    }

    /// Whether the team is still ramping up.
    pub fn is_ramping_up(&self) -> (b: bool)
        ensures
            b == (self.ramp_up_days_remaining > 0),
    {
        self.ramp_up_days_remaining > 0
    }

    /// One day passes: a day less of ramp-up, if any is left.
    pub fn process_day(&mut self)
        ensures
            *final(self) == (Team {
                ramp_up_days_remaining: if old(self).ramp_up_days_remaining > 0 {
                    (old(self).ramp_up_days_remaining - 1) as u32
                } else {
                    0
                },
                ..*old(self)
            }),
    {
        if self.ramp_up_days_remaining > 0 {
            self.ramp_up_days_remaining = self.ramp_up_days_remaining - 1;
        }
    }

    /// Put the team on `task`; a new assignment restarts the ramp-up.
    pub fn assign(&mut self, task: TeamTask)
        ensures
            *final(self) == (Team { task: Some(task), ramp_up_days_remaining: RAMP_UP_DAYS, ..*old(self) }),
    {
        self.task = Some(task);
        self.ramp_up_days_remaining = RAMP_UP_DAYS;
    }

    /// Take the team off its task; the ramp-up left is kept.
    pub fn unassign(&mut self)
        ensures
            *final(self) == (Team { task: None, ..*old(self) }),
    {
        self.task = None;
    }
}

/// Ids of the teams that satisfy `p`, in roster order.
pub open spec fn ids_where(s: Seq<Team>, p: spec_fn(Team) -> bool) -> Seq<u32>
    decreases s.len(),
{
    if s.len() == 0 {
        seq![]
    } else if p(s.last()) {
        ids_where(s.drop_last(), p).push(s.last().id)
    } else {
        ids_where(s.drop_last(), p)
    }
}

/// Teams with no task.
pub open spec fn idle() -> spec_fn(Team) -> bool {
    |t: Team| t.task is None
}

/// Teams of the given kind.
pub open spec fn of_type(team_type: TeamType) -> spec_fn(Team) -> bool {
    |t: Team| t.team_type == team_type
}

/// Teams of the given kind with no task.
pub open spec fn idle_of_type(team_type: TeamType) -> spec_fn(Team) -> bool {
    |t: Team| t.task is None && t.team_type == team_type
}

/// Teams working on `task`.
pub open spec fn working_on(task: TeamTask) -> spec_fn(Team) -> bool {
    |t: Team| t.task == Some(task)
}

/// Teams working on `task` that are past their ramp-up.
pub open spec fn productive_on(task: TeamTask) -> spec_fn(Team) -> bool {
    |t: Team| t.task == Some(task) && t.ramp_up_days_remaining == 0
}

/// Manufacturing assignments to orders that are no longer active.
pub open spec fn on_inactive_order(t: Team, active: Seq<ManufacturingOrderId>) -> bool {
    match t.task {
        Some(TeamTask::Manufacturing { order_id }) => !active.contains(order_id),
        _ => false,
    }
}

/// Position of the first team with the given id, from position `i` on (the length when
/// there is none).
pub open spec fn team_index(s: Seq<Team>, id: u32, i: int) -> int
    decreases s.len() - i,
{
    if i < 0 || i >= s.len() {
        s.len() as int
    } else if s[i].id == id {
        i
    } else {
        team_index(s, id, i + 1)
    }
}

proof fn lemma_team_index(s: Seq<Team>, id: u32, i: int)
    requires
        0 <= i <= s.len(),
    ensures
        i <= team_index(s, id, i) <= s.len(),
        team_index(s, id, i) < s.len() ==> s[team_index(s, id, i)].id == id,
        forall|j: int| i <= j < team_index(s, id, i) ==> (#[trigger] s[j]).id != id,
    decreases s.len() - i,
{
    if i < s.len() && s[i].id != id {
        lemma_team_index(s, id, i + 1);
    }
}

/// All teams of a company and the id the next hire gets.
#[derive(Debug, Clone)]
pub struct TeamRoster {
    pub teams: Vec<Team>,
    next_team_id: u32,
}

/// What a roster holds.
pub struct RosterView {
    pub teams: Seq<Team>,
    /// The id the next hired team will get
    pub next_id: nat,
}

impl View for TeamRoster {
    type V = RosterView;

    closed spec fn view(&self) -> RosterView {
        RosterView { teams: self.teams@, next_id: self.next_team_id as nat }
    }
}

impl RosterView {
    /// Team ids are positive, distinct and below the next id to hand out.
    pub open spec fn ids_wf(self) -> bool {
        &&& self.next_id >= 1
        &&& forall|k: int| 0 <= k < self.teams.len() ==> 1 <= (#[trigger] self.teams[k]).id < self.next_id
        &&& forall|a: int, b: int|
            0 <= a < self.teams.len() && 0 <= b < self.teams.len() && a != b
                ==> (#[trigger] self.teams[a]).id != (#[trigger] self.teams[b]).id
    }
}

impl TeamRoster {
    /// No teams yet; the first one hired gets id 1.
    pub fn new() -> (r: Self)
        ensures
            r@.teams.len() == 0,
            r@.next_id == 1,
            r@.ids_wf(),
    {
        TeamRoster { teams: Vec::new(), next_team_id: 1 }
    }

    /// The id the next hired team will get.
    pub fn next_team_id(&self) -> (n: u32)
        ensures
            n == self@.next_id,
    {
        self.next_team_id
    }

    /// Number of teams.
    pub fn team_count(&self) -> (n: usize)
        ensures
            n == self@.teams.len(),
    {
        self.teams.len()
    }

    /// Hire a team of the given kind: it gets the next id, joins the end of the roster
    /// unassigned, and the id is returned.
    pub fn hire(&mut self, team_type: TeamType) -> (id: u32)
        requires
            old(self)@.next_id < u32::MAX,
        ensures
            id == old(self)@.next_id,
            final(self)@.next_id == old(self)@.next_id + 1,
            final(self)@.teams == old(self)@.teams.push(
                Team { id, team_type, task: None, ramp_up_days_remaining: 0 },
            ),
            old(self)@.ids_wf() ==> final(self)@.ids_wf(),
    {
        let id = self.next_team_id;
        let ghost before = self.teams@;
        self.teams.push(Team::new(id, team_type));
        self.next_team_id = self.next_team_id + 1;
        proof {
            let after = self.teams@;
            if old(self)@.ids_wf() {
                assert forall|k: int| 0 <= k < after.len() implies 1 <= (#[trigger] after[k]).id
                    < self.next_team_id by {
                    if k < before.len() {
                        assert(after[k] == before[k]);
                    }
                }
                assert forall|a: int, b: int|
                    0 <= a < after.len() && 0 <= b < after.len() && a != b implies (#[trigger] after[a]).id
                        != (#[trigger] after[b]).id by {
                    if a < before.len() {
                        assert(after[a] == before[a]);
                    }
                    if b < before.len() {
                        assert(after[b] == before[b]);
                    }
                }
            }
        }
        id
    }

    /// Position of the team with the given id (the first one), if any.
    fn find_team(&self, team_id: u32) -> (r: Option<usize>)
        ensures
            match r {
                Some(k) => k == team_index(self@.teams, team_id, 0) && k < self@.teams.len(),
                None => team_index(self@.teams, team_id, 0) == self@.teams.len(),
            },
    {
        proof {
            lemma_team_index(self@.teams, team_id, 0);
        }
        let mut k: usize = 0;
        while k < self.teams.len()
            invariant
                self@.teams == self.teams@,
                k <= self@.teams.len(),
                forall|j: int| 0 <= j < k ==> (#[trigger] self@.teams[j]).id != team_id,
                k <= team_index(self@.teams, team_id, 0) <= self@.teams.len(),
                team_index(self@.teams, team_id, 0) < self@.teams.len() ==> self@.teams[team_index(
                    self@.teams,
                    team_id,
                    0,
                )].id == team_id,
            decreases self@.teams.len() - k,
        {
            if self.teams[k].id == team_id {
                proof {
                    lemma_team_index(self@.teams, team_id, 0);
                    if (k as int) < team_index(self@.teams, team_id, 0) {
                        assert(self@.teams[k as int].id != team_id);
                    }
                }
                return Some(k);
            }
            k = k + 1;
        }
        None
    }

    /// The team with the given id, if any.
    pub fn get_team(&self, team_id: u32) -> (r: Option<&Team>)
        ensures
            match r {
                Some(t) => team_index(self@.teams, team_id, 0) < self@.teams.len() && *t
                    == self@.teams[team_index(self@.teams, team_id, 0)],
                None => team_index(self@.teams, team_id, 0) == self@.teams.len(),
            },
    {
        match self.find_team(team_id) {
            Some(k) => Some(&self.teams[k]),
            None => None,
        }
    }

    /// Fire the team with the given id. Returns whether one was found and removed.
    pub fn fire(&mut self, team_id: u32) -> (found: bool)
        ensures
            found == (team_index(old(self)@.teams, team_id, 0) < old(self)@.teams.len()),
            found ==> final(self)@.teams == old(self)@.teams.remove(team_index(old(self)@.teams, team_id, 0)),
            !found ==> final(self)@.teams == old(self)@.teams,
            final(self)@.next_id == old(self)@.next_id,
            old(self)@.ids_wf() ==> final(self)@.ids_wf(),
    {
        match self.find_team(team_id) {
            Some(k) => {
                let ghost before = self.teams@;
                self.teams.remove(k);
                proof {
                    let after = self.teams@;
                    if old(self)@.ids_wf() {
                        assert forall|j: int| 0 <= j < after.len() implies 1 <= (#[trigger] after[j]).id
                            < old(self)@.next_id by {
                            assert(after[j] == before[if j < k { j } else { j + 1 }]);
                        }
                        assert forall|a: int, b: int|
                            0 <= a < after.len() && 0 <= b < after.len() && a != b implies (#[trigger] after[a]).id
                                != (#[trigger] after[b]).id by {
                            let a2 = if a < k { a } else { a + 1 };
                            let b2 = if b < k { b } else { b + 1 };
                            assert(after[a] == before[a2]);
                            assert(after[b] == before[b2]);
                        }
                    }
                }
                true
            },
            None => false,
        }
    }

    /// Replacing the team at position `k` by one with the same id keeps the ids well formed.
    proof fn lemma_same_ids(before: Seq<Team>, after: Seq<Team>, k: int, next: nat)
        requires
            0 <= k < before.len(),
            after.len() == before.len(),
            after[k].id == before[k].id,
            forall|j: int| 0 <= j < before.len() && j != k ==> after[j] == before[j],
            (RosterView { teams: before, next_id: next }).ids_wf(),
        ensures
            (RosterView { teams: after, next_id: next }).ids_wf(),
    {
        assert forall|j: int| 0 <= j < after.len() implies (#[trigger] after[j]).id == before[j].id by {
            if j != k {
                assert(after[j] == before[j]);
            }
        }
    }

    /// Put the team with the given id on `task`, restarting its ramp-up. Refused (false,
    /// nothing changed) when there is no such team or it is of the wrong kind for the
    /// task.
    pub fn assign(&mut self, team_id: u32, task: TeamTask) -> (done: bool)
        ensures
            done == (team_index(old(self)@.teams, team_id, 0) < old(self)@.teams.len()
                && old(self)@.teams[team_index(old(self)@.teams, team_id, 0)].team_type
                == spec_task_team_type(task)),
            done ==> final(self)@.teams == old(self)@.teams.update(
                team_index(old(self)@.teams, team_id, 0),
                Team {
                    task: Some(task),
                    ramp_up_days_remaining: RAMP_UP_DAYS,
                    ..old(self)@.teams[team_index(old(self)@.teams, team_id, 0)]
                },
            ),
            !done ==> final(self)@.teams == old(self)@.teams,
            final(self)@.next_id == old(self)@.next_id,
            old(self)@.ids_wf() ==> final(self)@.ids_wf(),
    {
        let k = match self.find_team(team_id) {
            Some(k) => k,
            None => return false,
        };
        if self.teams[k].team_type != task.team_type() {
            return false;
        }
        let ghost before = self.teams@;
        let mut t = self.teams[k];
        t.assign(task);
        self.teams.set(k, t);
        proof {
            if old(self)@.ids_wf() {
                Self::lemma_same_ids(before, self.teams@, k as int, self.next_team_id as nat);
            }
        }
        true
    }

    /// Take the team with the given id off its task. Returns whether the team exists.
    pub fn unassign(&mut self, team_id: u32) -> (found: bool)
        ensures
            found == (team_index(old(self)@.teams, team_id, 0) < old(self)@.teams.len()),
            found ==> final(self)@.teams == old(self)@.teams.update(
                team_index(old(self)@.teams, team_id, 0),
                Team { task: None, ..old(self)@.teams[team_index(old(self)@.teams, team_id, 0)] },
            ),
            !found ==> final(self)@.teams == old(self)@.teams,
            final(self)@.next_id == old(self)@.next_id,
            old(self)@.ids_wf() ==> final(self)@.ids_wf(),
    {
        let k = match self.find_team(team_id) {
            Some(k) => k,
            None => return false,
        };
        let ghost before = self.teams@;
        let mut t = self.teams[k];
        t.unassign();
        self.teams.set(k, t);
        proof {
            if old(self)@.ids_wf() {
                Self::lemma_same_ids(before, self.teams@, k as int, self.next_team_id as nat);
            }
        }
        true
    }

    /// Ids of the teams with no task, in roster order.
    pub fn unassigned_team_ids(&self) -> (v: Vec<u32>)
        ensures
            v@ == ids_where(self@.teams, idle()),
    {
        let ghost p = idle();
        let mut v: Vec<u32> = Vec::new();
        let mut i: usize = 0;
        while i < self.teams.len()
            invariant
                i <= self.teams@.len(),
                self@.teams == self.teams@,
                p == idle(),
                v@ == ids_where(self.teams@.take(i as int), p),
            decreases self.teams@.len() - i,
        {
            proof {
                assert(self.teams@.take(i + 1).drop_last() =~= self.teams@.take(i as int));
                assert(self.teams@.take(i + 1).last() == self.teams@[i as int]);
            }
            if self.teams[i].task.is_none() {
                v.push(self.teams[i].id);
            }
            i = i + 1;
        }
        proof {
            assert(self.teams@.take(i as int) =~= self.teams@);
        }
        v
    }

    /// Ids of the teams of the given kind, in roster order.
    pub fn team_ids_of_type(&self, team_type: TeamType) -> (v: Vec<u32>)
        ensures
            v@ == ids_where(self@.teams, of_type(team_type)),
    {
        let ghost p = of_type(team_type);
        let mut v: Vec<u32> = Vec::new();
        let mut i: usize = 0;
        while i < self.teams.len()
            invariant
                i <= self.teams@.len(),
                self@.teams == self.teams@,
                p == of_type(team_type),
                v@ == ids_where(self.teams@.take(i as int), p),
            decreases self.teams@.len() - i,
        {
            proof {
                assert(self.teams@.take(i + 1).drop_last() =~= self.teams@.take(i as int));
                assert(self.teams@.take(i + 1).last() == self.teams@[i as int]);
            }
            if self.teams[i].team_type == team_type {
                v.push(self.teams[i].id);
            }
            i = i + 1;
        }
        proof {
            assert(self.teams@.take(i as int) =~= self.teams@);
        }
        v
    }

    /// Ids of the teams working on `task`, in roster order.
    pub fn teams_on(&self, task: TeamTask) -> (v: Vec<u32>)
        ensures
            v@ == ids_where(self@.teams, working_on(task)),
    {
        let ghost p = working_on(task);
        let mut v: Vec<u32> = Vec::new();
        let mut i: usize = 0;
        while i < self.teams.len()
            invariant
                i <= self.teams@.len(),
                self@.teams == self.teams@,
                p == working_on(task),
                v@ == ids_where(self.teams@.take(i as int), p),
            decreases self.teams@.len() - i,
        {
            proof {
                assert(self.teams@.take(i + 1).drop_last() =~= self.teams@.take(i as int));
                assert(self.teams@.take(i + 1).last() == self.teams@[i as int]);
            }
            if self.teams[i].task == Some(task) {
                v.push(self.teams[i].id);
            }
            i = i + 1;
        }
        proof {
            assert(self.teams@.take(i as int) =~= self.teams@);
        }
        v
    }

    /// Number of teams on `task` that are past their ramp-up (the teams whose work
    /// counts toward its progress).
    pub fn productive_teams_on(&self, task: TeamTask) -> (n: usize)
        ensures
            n == ids_where(self@.teams, productive_on(task)).len(),
    {
        let ghost p = productive_on(task);
        let mut n: usize = 0;
        let mut i: usize = 0;
        while i < self.teams.len()
            invariant
                i <= self.teams@.len(),
                self@.teams == self.teams@,
                p == productive_on(task),
                n == ids_where(self.teams@.take(i as int), p).len(),
                n <= i,
            decreases self.teams@.len() - i,
        {
            proof {
                assert(self.teams@.take(i + 1).drop_last() =~= self.teams@.take(i as int));
                assert(self.teams@.take(i + 1).last() == self.teams@[i as int]);
            }
            if self.teams[i].task == Some(task) && self.teams[i].ramp_up_days_remaining == 0 {
                n = n + 1;
            }
            i = i + 1;
        }
        proof {
            assert(self.teams@.take(i as int) =~= self.teams@);
        }
        n
    }

    /// The first team of the given kind with no task, if any.
    pub fn first_idle(&self, team_type: TeamType) -> (r: Option<u32>)
        ensures
            r == (if ids_where(self@.teams, idle_of_type(team_type)).len() > 0 {
                Some(ids_where(self@.teams, idle_of_type(team_type))[0])
            } else {
                None
            }),
    {
        let ghost p = idle_of_type(team_type);
        let mut i: usize = 0;
        while i < self.teams.len()
            invariant
                i <= self.teams@.len(),
                self@.teams == self.teams@,
                p == idle_of_type(team_type),
                ids_where(self.teams@.take(i as int), p).len() == 0,
            decreases self.teams@.len() - i,
        {
            proof {
                assert(self.teams@.take(i + 1).drop_last() =~= self.teams@.take(i as int));
                assert(self.teams@.take(i + 1).last() == self.teams@[i as int]);
            }
            if self.teams[i].task.is_none() && self.teams[i].team_type == team_type {
                proof {
                    let pre = self.teams@.take(i + 1);
                    assert(p(pre.last()));
                    assert(ids_where(pre, p) == ids_where(pre.drop_last(), p).push(pre.last().id));
                    assert(ids_where(pre, p) =~= seq![self.teams@[i as int].id]);
                    lemma_ids_where_prefix(self.teams@, p, i + 1);
                    let w = ids_where(self.teams@, p);
                    assert(w.take(1)[0] == w[0]);
                }
                return Some(self.teams[i].id);
            }
            i = i + 1;
        }
        proof {
            assert(self.teams@.take(i as int) =~= self.teams@);
        }
        None
    }

    /// One day passes for every team: each one still ramping up has a day less to go.
    pub fn process_day(&mut self)
        ensures
            final(self)@.teams.len() == old(self)@.teams.len(),
            forall|k: int|
                0 <= k < old(self)@.teams.len() ==> #[trigger] final(self)@.teams[k] == (Team {
                    ramp_up_days_remaining: if old(self)@.teams[k].ramp_up_days_remaining > 0 {
                        (old(self)@.teams[k].ramp_up_days_remaining - 1) as u32
                    } else {
                        0
                    },
                    ..old(self)@.teams[k]
                }),
            final(self)@.next_id == old(self)@.next_id,
            old(self)@.ids_wf() ==> final(self)@.ids_wf(),
    {
        let ghost before = self.teams@;
        let mut i: usize = 0;
        while i < self.teams.len()
            invariant
                i <= self.teams@.len(),
                self.teams@.len() == before.len(),
                before == old(self)@.teams,
                self.next_team_id == old(self)@.next_id,
                forall|k: int|
                    0 <= k < i ==> #[trigger] self.teams@[k] == (Team {
                        ramp_up_days_remaining: if before[k].ramp_up_days_remaining > 0 {
                            (before[k].ramp_up_days_remaining - 1) as u32
                        } else {
                            0
                        },
                        ..before[k]
                    }),
                forall|k: int| i <= k < self.teams@.len() ==> #[trigger] self.teams@[k] == before[k],
            decreases self.teams@.len() - i,
        {
            let mut t = self.teams[i];
            t.process_day();
            self.teams.set(i, t);
            i = i + 1;
        }
        proof {
            if old(self)@.ids_wf() {
                let after = self.teams@;
                assert forall|j: int| 0 <= j < after.len() implies (#[trigger] after[j]).id == before[j].id by {}
            }
        }
    }

    /// Take every manufacturing team whose order is not among `active_orders` off its
    /// task (orders that were finished or cancelled); other teams are unchanged.
    pub fn release_finished_orders(&mut self, active_orders: &Vec<ManufacturingOrderId>)
        ensures
            final(self)@.teams.len() == old(self)@.teams.len(),
            forall|k: int|
                0 <= k < old(self)@.teams.len() ==> #[trigger] final(self)@.teams[k] == if on_inactive_order(
                    old(self)@.teams[k],
                    active_orders@,
                ) {
                    Team { task: None, ..old(self)@.teams[k] }
                } else {
                    old(self)@.teams[k]
                },
            final(self)@.next_id == old(self)@.next_id,
            old(self)@.ids_wf() ==> final(self)@.ids_wf(),
    {
        let ghost before = self.teams@;
        let mut i: usize = 0;
        while i < self.teams.len()
            invariant
                i <= self.teams@.len(),
                self.teams@.len() == before.len(),
                before == old(self)@.teams,
                self.next_team_id == old(self)@.next_id,
                forall|k: int|
                    0 <= k < i ==> #[trigger] self.teams@[k] == if on_inactive_order(before[k], active_orders@) {
                        Team { task: None, ..before[k] }
                    } else {
                        before[k]
                    },
                forall|k: int| i <= k < self.teams@.len() ==> #[trigger] self.teams@[k] == before[k],
            decreases self.teams@.len() - i,
        {
            let t = self.teams[i];
            match t.task {
                Some(TeamTask::Manufacturing { order_id }) => {
                    if !contains_order(active_orders, order_id) {
                        let mut u = t;
                        u.unassign();
                        self.teams.set(i, u);
                    }
                },
                _ => {},
            }
            i = i + 1;
        }
        proof {
            if old(self)@.ids_wf() {
                let after = self.teams@;
                assert forall|j: int| 0 <= j < after.len() implies (#[trigger] after[j]).id == before[j].id by {}
            }
        }
    }
}

/// Firing the team that was just hired gives back the roster as it was: the new team
/// carries the next id, which no earlier team holds, so it is the one found and removed.
pub proof fn lemma_fire_undoes_hire(r: RosterView, t: Team)
    requires
        r.ids_wf(),
        t.id == r.next_id,
    ensures
        team_index(r.teams.push(t), t.id, 0) == r.teams.len(),
        r.teams.push(t).remove(team_index(r.teams.push(t), t.id, 0)) == r.teams,
{
    let s = r.teams.push(t);
    lemma_team_index(s, t.id, 0);
    let k = team_index(s, t.id, 0);
    let n = r.teams.len() as int;
    assert(s[n] == t);
    if k < n {
        assert(s[k] == r.teams[k]);
        assert(1 <= r.teams[k].id < r.next_id);
    }
    if k > n {
        assert(s[n].id != t.id);
    }
    assert(s.remove(r.teams.len() as int) =~= r.teams);
}

/// Put a manufacturing team on an order. Refused (false, roster unchanged) when the order
/// does not exist or still waits for engines, or when the team does not exist or is not a
/// manufacturing team.
pub fn assign_team_to_order(
    roster: &mut TeamRoster,
    manufacturing: &Manufacturing,
    team_id: u32,
    order_id: ManufacturingOrderId,
) -> (done: bool)
    ensures
        ({
            let orders = manufacturing@.orders;
            let k = order_index(orders, order_id, 0);
            let teams = old(roster)@.teams;
            let j = team_index(teams, team_id, 0);
            &&& done == (k < orders.len() && !orders[k].waiting_for_engines && j < teams.len()
                && teams[j].team_type == TeamType::Manufacturing)
            &&& done ==> final(roster)@.teams == teams.update(
                j,
                Team {
                    task: Some(TeamTask::Manufacturing { order_id }),
                    ramp_up_days_remaining: RAMP_UP_DAYS,
                    ..teams[j]
                },
            )
            &&& !done ==> final(roster)@.teams == teams
        }),
        final(roster)@.next_id == old(roster)@.next_id,
        old(roster)@.ids_wf() ==> final(roster)@.ids_wf(),
{
    match manufacturing.get_order(order_id) {
        Some(order) => {
            if order.waiting_for_engines {
                return false;
            }
        },
        None => return false,
    }
    roster.assign(team_id, TeamTask::Manufacturing { order_id })
}

/// Whether `ids` holds `id`.
fn contains_order(ids: &Vec<ManufacturingOrderId>, id: ManufacturingOrderId) -> (b: bool)
    ensures
        b == ids@.contains(id),
{
    let mut i: usize = 0;
    while i < ids.len()
        invariant
            i <= ids@.len(),
            forall|j: int| 0 <= j < i ==> ids@[j] != id,
        decreases ids@.len() - i,
    {
        if ids[i] == id {
            return true;
        }
        i = i + 1;
    }
    false
}

/// The ids picked from a prefix are a prefix of those picked from the whole roster.
pub proof fn lemma_ids_where_prefix(s: Seq<Team>, p: spec_fn(Team) -> bool, n: int)
    requires
        0 <= n <= s.len(),
    ensures
        ids_where(s.take(n), p).len() <= ids_where(s, p).len(),
        ids_where(s.take(n), p) =~= ids_where(s, p).take(ids_where(s.take(n), p).len() as int),
    decreases s.len() - n,
{
    if n < s.len() {
        lemma_ids_where_prefix(s, p, n + 1);
        assert(s.take(n + 1).drop_last() =~= s.take(n));
        let a = ids_where(s.take(n), p);
        let b = ids_where(s.take(n + 1), p);
        let w = ids_where(s, p);
        assert(b.take(a.len() as int) =~= a);
        assert(w.take(b.len() as int).take(a.len() as int) =~= w.take(a.len() as int));
    } else {
        assert(s.take(n) =~= s);
    }
}

} // verus!
