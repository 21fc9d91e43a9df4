//! The mothership: the coordinator of a mission.
//!
//! The mothership keeps a registry of the minions that announced
//! themselves. When a mission arrives it splits the area among them, one
//! task each, and then follows the reports: points of interest are
//! collected, positions are noted, completed tasks are counted. The report
//! that completes the last task ends the collecting, once, and yields the
//! tour over the points of interest. The mission is complete when the tour
//! is over.

use vstd::prelude::*;
use crate::coordinate::Coordinate;
use crate::grid::{grid_cells, grid_width, Grid};
use crate::minion::{DelegateTaskMessage, MinionHeartbeat};
use crate::partition::{covers, partition, placed, placed_all, split_mission_area, Placed};
use crate::peer::MinionId;
use crate::route::{lemma_tour_is_permutation, plan_route, tour};

verus! {

/// How far a mission has come. A mission never goes back.
#[derive(Debug, Clone, Copy, PartialEq, Eq, Structural)]
pub enum MissionStatus {
    Pending,
    InProgress,
    Complete,
}

impl MissionStatus {
    /// The place of a status in the order in which a mission passes
    /// through them.
    pub open spec fn rank(self) -> nat {
        match self {
            MissionStatus::Pending => 0,
            MissionStatus::InProgress => 1,
            MissionStatus::Complete => 2,
        }
    }
}

/// A minion as the mothership knows it: its identity and the position it
/// reported last.
#[derive(Debug)]
pub struct Minion {
    pub peer_id: MinionId,
    pub position: Coordinate,
}

/// The registry of minions, in the order in which they were first seen, and
/// the count of the tasks of the mission.
#[derive(Debug)]
pub struct DelegateTasks {
    pub minions: Vec<Minion>,
    /// The number of tasks handed out; set when the mission starts.
    pub total: u32,
    /// The number of tasks reported complete.
    pub complete: u32,
}

/// The state of the mothership.
#[derive(Debug)]
pub struct MothershipState {
    pub position: Coordinate,
    pub mission_status: MissionStatus,
    pub mission_area: Option<Grid>,
    pub delegate_tasks: DelegateTasks,
    /// The points of interest in the order in which they were reported.
    pub points_of_interest: Vec<Coordinate>,
}

/// The count of a mission: its status and its tasks.
pub struct Progress {
    pub status: MissionStatus,
    pub total: nat,
    pub complete: nat,
}

impl Progress {
    /// Tasks are out and not all of them are complete: reports count.
    pub open spec fn collecting(self) -> bool {
        self.status == MissionStatus::InProgress && self.complete < self.total
    }

    /// Every task is complete and the tour is under way.
    pub open spec fn touring(self) -> bool {
        self.status == MissionStatus::InProgress && self.complete == self.total && self.total > 0
    }

    /// No more tasks are complete than were handed out; a mission in
    /// progress has handed out a task; a complete mission has all of its
    /// tasks complete.
    pub open spec fn wf(self) -> bool {
        &&& self.complete <= self.total
        &&& self.status == MissionStatus::InProgress ==> self.total > 0
        &&& self.status == MissionStatus::Complete ==> self.complete == self.total && self.total > 0
    }

    /// The count after one report of a complete task, and whether that
    /// report ended the collecting. `no_pois` says that no point of interest
    /// was collected, so that there is no tour to make.
    ///
    /// A report counts only while the mothership collects. The report that
    /// makes the count full ends the collecting; the mission is then
    /// complete at once if there is no tour to make.
    pub open spec fn completion(self, no_pois: bool) -> (Progress, bool) {
        if !self.collecting() {
            (self, false)
        } else if self.complete + 1 < self.total {
            (Progress { complete: self.complete + 1, ..self }, false)
        } else {
            (
                Progress {
                    complete: self.complete + 1,
                    status: if no_pois { MissionStatus::Complete } else { MissionStatus::InProgress },
                    ..self
                },
                true,
            )
        }
    }

    /// The count after `reports` reports of a complete task.
    pub open spec fn after_reports(self, reports: nat, no_pois: bool) -> Progress
        decreases reports,
    {
        if reports == 0 {
            self
        } else {
            self.after_reports((reports - 1) as nat, no_pois).completion(no_pois).0
        }
    }
}

/// What a task stands for: its sub-grid at its offset.
pub open spec fn task_placed(task: DelegateTaskMessage) -> Placed {
    Placed {
        row: task.global_coordinates.x as int,
        col: task.global_coordinates.y as int,
        cells: grid_cells(task.area),
        width: grid_width(task.area),
    }
}

/// What a sequence of tasks stands for.
pub open spec fn tasks_placed(tasks: Seq<DelegateTaskMessage>) -> Seq<Placed> {
    Seq::new(tasks.len(), |k: int| task_placed(tasks[k]))
}

/// An area that can be split: it has a cell, and each of its axes has a
/// 32-bit length.
pub open spec fn usable(area: Grid) -> bool {
    &&& 0 < grid_cells(area).len() <= i32::MAX
    &&& 0 < grid_width(area) <= i32::MAX
}

impl DelegateTasks {
    /// The identities of the registered minions, in the order of the
    /// registry.
    pub open spec fn ids(self) -> Seq<Seq<u8>> {
        Seq::new(self.minions@.len(), |k: int| self.minions@[k].peer_id@)
    }

    /// A minion with the identity `id` is registered.
    pub open spec fn knows(self, id: Seq<u8>) -> bool {
        self.ids().contains(id)
    }

    /// Entry `i` of the registry is the first one for `id`.
    pub open spec fn is_first(self, id: Seq<u8>, i: int) -> bool {
        &&& 0 <= i < self.minions@.len()
        &&& self.ids()[i] == id
        &&& forall|k: int| 0 <= k < i ==> self.ids()[k] != id
    }

    /// No minion is registered twice.
    pub open spec fn wf(self) -> bool {
        self.ids().no_duplicates()
    }

    /// The place of the minion `peer_id` in the registry: that of the first
    /// entry with its identity.
    pub fn find(&self, peer_id: &MinionId) -> (found: Option<usize>)
        ensures
            found is Some <==> self.knows(peer_id@),
            found matches Some(i) ==> self.is_first(peer_id@, i as int),
    {
        let mut at: usize = 0;
        while at < self.minions.len()
            invariant
                at <= self.minions@.len(),
                forall|k: int| 0 <= k < at ==> self.ids()[k] != peer_id@,
            decreases self.minions@.len() - at,
        {
            if self.minions[at].peer_id.is_same(peer_id) {
                assert(self.ids()[at as int] == peer_id@);
                return Some(at);
            }
            at = at + 1;
        }
        None
    }
}

impl MothershipState {
    /// The count of the mission.
    pub open spec fn progress(self) -> Progress {
        Progress {
            status: self.mission_status,
            total: self.delegate_tasks.total as nat,
            complete: self.delegate_tasks.complete as nat,
        }
    }

    /// The state is sound: see [`Progress::wf`] and [`DelegateTasks::wf`].
    /// Every state that [`MothershipState::new`] and the methods below lead
    /// to is sound.
    pub open spec fn wf(self) -> bool {
        self.progress().wf() && self.delegate_tasks.wf()
    }

    /// A mothership at `position` that waits for a mission: no minion is
    /// registered and nothing has been reported.
    pub fn new(position: Coordinate) -> (state: MothershipState)
        ensures
            state.wf(),
            state.position == position,
            state.mission_status == MissionStatus::Pending,
            state.mission_area is None,
            state.delegate_tasks.minions@.len() == 0,
            state.delegate_tasks.total == 0,
            state.delegate_tasks.complete == 0,
            state.points_of_interest@.len() == 0,
    {
        let state = MothershipState {
            position,
            mission_status: MissionStatus::Pending,
            mission_area: None,
            delegate_tasks: DelegateTasks { minions: Vec::new(), total: 0, complete: 0 },
            points_of_interest: Vec::new(),
        };
        assert(state.delegate_tasks.ids() =~= Seq::<Seq<u8>>::empty());
        state
    }

    /// Enters the minion `peer_id` into the registry, at the end and at
    /// position (0, 0), unless it is registered already. Returns whether it
    /// was entered.
    pub fn register_minion(&mut self, peer_id: MinionId) -> (added: bool)
        ensures
            added <==> !old(self).delegate_tasks.knows(peer_id@),
            added ==> final(self).delegate_tasks.minions@ == old(self).delegate_tasks.minions@.push(
                Minion { peer_id, position: Coordinate { x: 0, y: 0 } },
            ),
            !added ==> final(self).delegate_tasks.minions@ == old(self).delegate_tasks.minions@,
            final(self).delegate_tasks.knows(peer_id@),
            final(self).progress() == old(self).progress(),
            final(self).position == old(self).position,
            final(self).mission_area == old(self).mission_area,
            final(self).points_of_interest == old(self).points_of_interest,
            old(self).wf() ==> final(self).wf(),
    {
        if self.delegate_tasks.find(&peer_id).is_some() {
            return false;
        }
        let ghost before = self.delegate_tasks.ids();
        self.delegate_tasks.minions.push(Minion { peer_id, position: Coordinate { x: 0, y: 0 } });
        proof {
            let now = self.delegate_tasks.ids();
            assert(now =~= before.push(peer_id@));
            assert(now[now.len() - 1] == peer_id@);
        }
        true
    }

    /// Starts a mission over `area`, if none was started before, a minion is
    /// registered and the area can be split: the area is split among the
    /// registered minions, and the result holds one task for each of them,
    /// in the order of the registry. Otherwise nothing changes and the
    /// result is `None`; the mothership goes on waiting.
    pub fn new_mission(&mut self, area: Grid) -> (tasks: Option<Vec<DelegateTaskMessage>>)
        ensures
            tasks is Some <==> {
                &&& old(self).mission_status == MissionStatus::Pending
                &&& 0 < old(self).delegate_tasks.minions@.len() <= u32::MAX
                &&& usable(area)
            },
            tasks is None ==> *final(self) == *old(self),
            tasks matches Some(out) ==> {
                &&& final(self).mission_status == MissionStatus::InProgress
                &&& final(self).mission_area == Some(area)
                &&& final(self).delegate_tasks.total == old(self).delegate_tasks.minions@.len()
                &&& final(self).delegate_tasks.complete == 0
                &&& out@.len() == old(self).delegate_tasks.minions@.len()
                &&& forall|k: int|
                    0 <= k < out@.len() ==> (#[trigger] out@[k]).peer_id@ == old(
                        self,
                    ).delegate_tasks.ids()[k]
                &&& tasks_placed(out@) == partition(
                    grid_cells(area),
                    grid_width(area),
                    old(self).delegate_tasks.minions@.len(),
                )
                &&& covers(grid_cells(area), grid_width(area), tasks_placed(out@))
            },
            old(self).mission_status.rank() <= final(self).mission_status.rank(),
            final(self).position == old(self).position,
            final(self).delegate_tasks.minions == old(self).delegate_tasks.minions,
            final(self).points_of_interest == old(self).points_of_interest,
            old(self).wf() ==> final(self).wf(),
    {
        match self.mission_status {
            MissionStatus::Pending => {},
            _ => {
                return None;
            },
        }
        let count: usize = self.delegate_tasks.minions.len();
        if count == 0 || count > 0xffff_ffff {
            return None;
        }
        let rows: usize = area.nrows();
        let cols: usize = area.ncols();
        if rows == 0 || cols == 0 || rows > 0x7fff_ffff || cols > 0x7fff_ffff {
            return None;
        }
        let mut parts = split_mission_area(area.duplicate(), count);
        let ghost all = parts@;
        let mut out: Vec<DelegateTaskMessage> = Vec::new();
        let mut at: usize = 0;
        while at < count
            invariant
                at <= count,
                count == self.delegate_tasks.minions@.len(),
                all.len() == count,
                parts@ == all.subrange(at as int, count as int),
                out@.len() == at,
                forall|k: int|
                    0 <= k < at ==> (#[trigger] out@[k]).peer_id@ == self.delegate_tasks.minions@[k].peer_id@,
                forall|k: int| 0 <= k < at ==> task_placed(#[trigger] out@[k]) == placed(all[k]),
            decreases count - at,
        {
            let (origin, part) = parts.remove(0);
            assert(parts@ =~= all.subrange(at + 1, count as int));
            out.push(
                DelegateTaskMessage {
                    peer_id: self.delegate_tasks.minions[at].peer_id.duplicate(),
                    global_coordinates: Coordinate { x: origin[0], y: origin[1] },
                    area: part,
                },
            );
            at = at + 1;
        }
        proof {
            assert(tasks_placed(out@) =~= placed_all(all));
            assert forall|k: int| 0 <= k < out@.len() implies (#[trigger] out@[k]).peer_id@
                == self.delegate_tasks.ids()[k] by {}
        }
        self.mission_status = MissionStatus::InProgress;
        self.delegate_tasks.total = count as u32;
        self.delegate_tasks.complete = 0;
        self.mission_area = Some(area);
        Some(out)
    }

    /// Notes `position` as the last known position of the minion
    /// `peer_id`, in its first entry in the registry. Returns whether the
    /// minion is registered; nothing changes if it is not.
    pub fn report_position(&mut self, peer_id: &MinionId, position: Coordinate) -> (known: bool)
        ensures
            known <==> old(self).delegate_tasks.knows(peer_id@),
            !known ==> final(self).delegate_tasks.minions@ == old(self).delegate_tasks.minions@,
            forall|i: int| #[trigger]
                old(self).delegate_tasks.is_first(peer_id@, i) ==> final(self).delegate_tasks.minions@
                    == old(self).delegate_tasks.minions@.update(
                    i,
                    Minion { peer_id: old(self).delegate_tasks.minions@[i].peer_id, position },
                ),
            final(self).delegate_tasks.ids() == old(self).delegate_tasks.ids(),
            final(self).progress() == old(self).progress(),
            final(self).position == old(self).position,
            final(self).mission_area == old(self).mission_area,
            final(self).points_of_interest == old(self).points_of_interest,
            old(self).wf() ==> final(self).wf(),
    {
        match self.delegate_tasks.find(peer_id) {
            None => false,
            Some(i) => {
                let ghost before = self.delegate_tasks.ids();
                let ghost minions = self.delegate_tasks.minions@;
                let entry = self.delegate_tasks.minions.remove(i);
                self.delegate_tasks.minions.insert(i, Minion { peer_id: entry.peer_id, position });
                proof {
                    assert(self.delegate_tasks.minions@ =~= minions.update(
                        i as int,
                        Minion { peer_id: minions[i as int].peer_id, position },
                    ));
                    assert(self.delegate_tasks.ids() =~= before) by {
                        assert forall|k: int| 0 <= k < before.len() implies self.delegate_tasks.ids()[k]
                            == before[k] by {
                            assert(before[k] == minions[k].peer_id@);
                        }
                    }
                    assert forall|j: int| #[trigger]
                        old(self).delegate_tasks.is_first(peer_id@, j) implies j == i by {
                        assert(before[i as int] == peer_id@);
                        assert(before[j] == peer_id@);
                    }
                }
                true
            },
        }
    }

    /// Takes note of a heartbeat of the minion `peer_id`. A heartbeat that
    /// found nothing is a report of the minion's position: see
    /// [`MothershipState::report_position`]. One that found a point of
    /// interest changes nothing here: the point arrives as a report of its
    /// own. Returns whether a position was noted.
    pub fn heartbeat(&mut self, peer_id: &MinionId, heartbeat: MinionHeartbeat) -> (noted: bool)
        ensures
            noted <==> !heartbeat.poi && old(self).delegate_tasks.knows(peer_id@),
            !noted ==> final(self).delegate_tasks.minions@ == old(self).delegate_tasks.minions@,
            noted ==> forall|i: int| #[trigger]
                old(self).delegate_tasks.is_first(peer_id@, i) ==> final(self).delegate_tasks.minions@
                    == old(self).delegate_tasks.minions@.update(
                    i,
                    Minion {
                        peer_id: old(self).delegate_tasks.minions@[i].peer_id,
                        position: heartbeat.position,
                    },
                ),
            final(self).delegate_tasks.ids() == old(self).delegate_tasks.ids(),
            final(self).progress() == old(self).progress(),
            final(self).position == old(self).position,
            final(self).mission_area == old(self).mission_area,
            final(self).points_of_interest == old(self).points_of_interest,
            old(self).wf() ==> final(self).wf(),
    {
        if heartbeat.poi {
            return false;
        }
        self.report_position(peer_id, heartbeat.position)
    }

    /// Records a point of interest, after those recorded before, while the
    /// mothership collects; drops it otherwise. Returns whether it was
    /// recorded.
    pub fn point_of_interest(&mut self, poi: Coordinate) -> (recorded: bool)
        ensures
            recorded <==> old(self).progress().collecting(),
            recorded ==> final(self).points_of_interest@ == old(self).points_of_interest@.push(poi),
            !recorded ==> final(self).points_of_interest@ == old(self).points_of_interest@,
            final(self).progress() == old(self).progress(),
            final(self).position == old(self).position,
            final(self).mission_area == old(self).mission_area,
            final(self).delegate_tasks == old(self).delegate_tasks,
    {
        if !self.is_collecting() {
            return false;
        }
        self.points_of_interest.push(poi);
        true
    }

    /// Whether tasks are out and not all of them are complete.
    pub fn is_collecting(&self) -> (collecting: bool)
        ensures
            collecting == self.progress().collecting(),
    {
        match self.mission_status {
            MissionStatus::InProgress => self.delegate_tasks.complete < self.delegate_tasks.total,
            _ => false,
        }
    }

    /// Whether every task is complete and the tour is under way.
    pub fn is_touring(&self) -> (touring: bool)
        ensures
            touring == self.progress().touring(),
    {
        match self.mission_status {
            MissionStatus::InProgress => self.delegate_tasks.complete == self.delegate_tasks.total
                && self.delegate_tasks.total > 0,
            _ => false,
        }
    }

    /// Counts a task as complete, while the mothership collects. The report
    /// that completes the last task ends the collecting and returns the
    /// tour over the points of interest, from where the mothership stands;
    /// every other report returns `None`. If the tour is empty, the mission
    /// is complete at once.
    pub fn task_complete(&mut self) -> (route: Option<Vec<Coordinate>>)
        ensures
            (final(self).progress(), route is Some) == old(self).progress().completion(
                old(self).points_of_interest@.len() == 0,
            ),
            route matches Some(hops) ==> hops@ == tour(old(self).position, old(self).points_of_interest@),
            old(self).mission_status.rank() <= final(self).mission_status.rank(),
            final(self).position == old(self).position,
            final(self).mission_area == old(self).mission_area,
            final(self).delegate_tasks.minions == old(self).delegate_tasks.minions,
            final(self).points_of_interest == old(self).points_of_interest,
            old(self).wf() ==> final(self).wf(),
    {
        if !self.is_collecting() {
            return None;
        }
        self.delegate_tasks.complete = self.delegate_tasks.complete + 1;
        if self.delegate_tasks.complete < self.delegate_tasks.total {
            return None;
        }
        let hops = plan_route(self.position, &self.points_of_interest);
        proof {
            lemma_tour_is_permutation(self.position, self.points_of_interest@);
        }
        if hops.len() == 0 {
            self.mission_status = MissionStatus::Complete;
        }
        Some(hops)
    }

    /// Moves the mothership to `hop` while it is on its tour. Returns
    /// whether it moved; outside a tour nothing changes.
    pub fn arrive(&mut self, hop: Coordinate) -> (moved: bool)
        ensures
            moved <==> old(self).progress().touring(),
            final(self).position == if moved { hop } else { old(self).position },
            final(self).progress() == old(self).progress(),
            final(self).mission_area == old(self).mission_area,
            final(self).delegate_tasks == old(self).delegate_tasks,
            final(self).points_of_interest == old(self).points_of_interest,
    {
        if !self.is_touring() {
            return false;
        }
        self.position = hop;
        true
    }

    /// Ends the tour: the mission is complete. Returns whether the mission
    /// became complete by this call; outside a tour nothing changes.
    pub fn tour_complete(&mut self) -> (completed: bool)
        ensures
            completed <==> old(self).progress().touring(),
            final(self).mission_status == if completed {
                MissionStatus::Complete
            } else {
                old(self).mission_status
            },
            old(self).mission_status.rank() <= final(self).mission_status.rank(),
            final(self).position == old(self).position,
            final(self).mission_area == old(self).mission_area,
            final(self).delegate_tasks == old(self).delegate_tasks,
            final(self).points_of_interest == old(self).points_of_interest,
            old(self).wf() ==> final(self).wf(),
    {
        if !self.is_touring() {
            return false;
        }
        self.mission_status = MissionStatus::Complete;
        true
    }
}

/// Of the reports of a complete task that follow the start of a mission,
/// exactly one ends the collecting: the one that makes the count full.
/// Every report before it only counts, and every report after it, a
/// duplicate, changes nothing.
pub proof fn lemma_completion_fires_once(start: Progress, no_pois: bool, report: nat)
    requires
        start.status == MissionStatus::InProgress,
        start.complete == 0,
        start.total > 0,
    ensures
        start.after_reports(report, no_pois).completion(no_pois).1 <==> report + 1 == start.total,
        start.after_reports(report, no_pois).wf(),
        start.after_reports(report, no_pois).total == start.total,
        report < start.total ==> start.after_reports(report, no_pois).collecting(),
        start.after_reports(report, no_pois).complete == if report <= start.total {
            report
        } else {
            start.total
        },
        report >= start.total ==> start.after_reports(report + 1, no_pois) == start.after_reports(
            report,
            no_pois,
        ),
    decreases report,
{
    if report > 0 {
        lemma_completion_fires_once(start, no_pois, (report - 1) as nat);
    }
}

/// No report sets a mission back: the status after a report of a complete
/// task is the status before it or a later one.
pub proof fn lemma_completion_is_monotonic(before: Progress, no_pois: bool)
    ensures
        before.status.rank() <= before.completion(no_pois).0.status.rank(),
        before.wf() ==> before.completion(no_pois).0.wf(),
{
}

} // verus!
