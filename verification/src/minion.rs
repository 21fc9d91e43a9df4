//! The minion: a worker that walks the sub-grid it was given, cell by cell.
//!
//! A minion is idle until a task addressed to it arrives. It then searches:
//! every tick of its driver visits the next cell in row-major order and
//! emits a heartbeat with the cell's position in the whole area and whether
//! the cell holds a point of interest. The tick after the last cell emits
//! one signal that the area is exhausted, and later ticks emit nothing until
//! the next task.
//!
//! A task that arrives during a search replaces the sub-grid. The walk goes
//! on over the new sub-grid from its first cell; the sub-grid that was given
//! up emits nothing more, and in particular no signal of exhaustion. Events
//! that were emitted before stay in the stream.

use vstd::prelude::*;
use std::collections::VecDeque;
use crate::coordinate::Coordinate;
use crate::grid::{grid_cells, grid_width, row_major, Grid};
use crate::peer::MinionId;
use crate::stream::SharedState;

verus! {

/// What a minion reports of one cell: where the cell lies in the whole area,
/// and whether it holds a point of interest.
#[derive(Debug, Clone, Copy, PartialEq, Eq, Structural)]
pub struct MinionHeartbeat {
    pub position: Coordinate,
    pub poi: bool,
}

/// What the driver of a minion emits on a tick.
#[derive(Debug, Clone, Copy, PartialEq, Eq, Structural)]
pub enum MinionEvent {
    /// A cell was visited.
    Heartbeat(MinionHeartbeat),
    /// No cell is left: the task is complete.
    Exhausted,
}

/// The messages that are due for an event.
#[derive(Debug, Clone, Copy, PartialEq, Eq, Structural)]
pub struct Reports {
    /// The point of interest to report, if the cell holds one.
    pub poi: Option<Coordinate>,
    /// The position to report together with its finding, if a cell was
    /// visited.
    pub position: Option<MinionHeartbeat>,
    /// The task is to be reported complete.
    pub task_complete: bool,
}

impl MinionEvent {
    /// The messages that are due for this event. A heartbeat is always
    /// reported as a position, and as a point of interest too if it found
    /// one. The signal of exhaustion is reported as a complete task and as
    /// nothing else.
    pub open spec fn spec_reports(self) -> Reports {
        match self {
            MinionEvent::Heartbeat(heartbeat) => Reports {
                poi: if heartbeat.poi { Some(heartbeat.position) } else { None },
                position: Some(heartbeat),
                task_complete: false,
            },
            MinionEvent::Exhausted => Reports { poi: None, position: None, task_complete: true },
        }
    }

    /// The messages that are due for this event.
    pub fn reports(self) -> (due: Reports)
        ensures
            due == self.spec_reports(),
    {
        match self {
            MinionEvent::Heartbeat(heartbeat) => Reports {
                poi: if heartbeat.poi { Some(heartbeat.position) } else { None },
                position: Some(heartbeat),
                task_complete: false,
            },
            MinionEvent::Exhausted => Reports { poi: None, position: None, task_complete: true },
        }
    }
}

/// A task for one minion: the sub-grid to search and the offset of its first
/// cell in the whole area.
#[derive(Debug)]
pub struct DelegateTaskMessage {
    pub peer_id: MinionId,
    pub global_coordinates: Coordinate,
    pub area: Grid,
}

/// What a minion did with a task.
#[derive(Debug, Clone, Copy, PartialEq, Eq, Structural)]
pub enum Delegation {
    /// The task is the minion's and its search has begun.
    Accepted,
    /// The task is another minion's.
    NotAddressed,
    /// The task is the minion's, but some cell of it has no 32-bit position.
    OutOfRange,
}

/// The state of a minion, shared by its driver and its event loop.
///
/// The fields are the minion's own. They are read through
/// [`MinionState::walk`] and [`MinionState::stream`] in contracts and
/// through the methods in code, so that the position in the whole area of
/// every cell still to visit is known to fit in 32 bits: see [`Walk::wf`].
#[derive(Debug)]
pub struct MinionState<W> {
    /// A task has been accepted.
    ready: bool,
    /// The offset of the sub-grid in the whole area.
    global_position: Coordinate,
    /// The cell visited last, within the sub-grid.
    local_position: Coordinate,
    /// The signal of exhaustion has been emitted for the current task.
    area_exhausted: bool,
    /// Whether the cell visited last holds a point of interest.
    poi: bool,
    /// The cells still to visit, each with its place in the sub-grid.
    mission_area: Option<VecDeque<((i32, i32), u32)>>,
    /// Where emitted events wait for the event loop.
    stream: SharedState<MinionEvent, W>,
}

/// The search of a minion: its state apart from the stream.
pub struct Walk {
    pub ready: bool,
    pub global_position: Coordinate,
    pub local_position: Coordinate,
    pub area_exhausted: bool,
    pub poi: bool,
    pub mission_area: Option<Seq<((i32, i32), u32)>>,
}

/// The position that an item of the cursor names.
pub open spec fn position_of(item: ((i32, i32), u32)) -> Coordinate {
    Coordinate { x: item.0.0, y: item.0.1 }
}

/// The heartbeat for an item of the cursor of a sub-grid at `offset`.
pub open spec fn heartbeat_of(offset: Coordinate, item: ((i32, i32), u32)) -> MinionHeartbeat {
    MinionHeartbeat { position: offset.sum(position_of(item)), poi: item.1 != 0 }
}

/// Every cell of a sub-grid of `rows` by `cols` at `offset` has a 32-bit
/// position, within the sub-grid and within the whole area. A sub-grid
/// without cells is always in range.
pub open spec fn in_range(offset: Coordinate, rows: nat, cols: nat) -> bool {
    rows == 0 || cols == 0 || {
        &&& rows - 1 <= i32::MAX
        &&& cols - 1 <= i32::MAX
        &&& offset.x + rows - 1 <= i32::MAX
        &&& offset.y + cols - 1 <= i32::MAX
    }
}

/// The cursor over a sub-grid: its cells in row-major order, each with its
/// row and column.
pub open spec fn local_cells(cells: Seq<Seq<u32>>, width: nat) -> Seq<((i32, i32), u32)> {
    Seq::new(
        cells.len() * width,
        |k: int| (((k / width as int) as i32, (k % width as int) as i32), cells[k / width as int][k % width as int]),
    )
}

impl Walk {
    /// A task is under way: it was accepted and is not yet exhausted.
    pub open spec fn searching(self) -> bool {
        self.ready && !self.area_exhausted && self.mission_area is Some
    }

    /// The position in the whole area of every cell still to visit fits in
    /// 32 bits.
    pub open spec fn wf(self) -> bool {
        self.mission_area matches Some(cells) ==> forall|k: int|
            0 <= k < cells.len() ==> self.global_position.can_add(position_of(#[trigger] cells[k]))
    }

    /// The search as it stands right after a task was accepted.
    pub open spec fn delegated(offset: Coordinate, cells: Seq<Seq<u32>>, width: nat) -> Walk {
        Walk {
            ready: true,
            global_position: offset,
            local_position: Coordinate { x: 0, y: 0 },
            area_exhausted: false,
            poi: false,
            mission_area: Some(local_cells(cells, width)),
        }
    }

    /// One tick of the driver: the search afterwards, and the event emitted.
    ///
    /// An idle minion and one whose area is exhausted do nothing. A
    /// searching minion visits the next cell, or, where none is left, emits
    /// the signal of exhaustion.
    pub open spec fn step(self) -> (Walk, Option<MinionEvent>) {
        if !self.searching() {
            (self, None)
        } else {
            let cells = self.mission_area->0;
            if cells.len() == 0 {
                (Walk { area_exhausted: true, ..self }, Some(MinionEvent::Exhausted))
            } else {
                (
                    Walk {
                        local_position: position_of(cells[0]),
                        poi: cells[0].1 != 0,
                        mission_area: Some(cells.skip(1)),
                        ..self
                    },
                    Some(MinionEvent::Heartbeat(heartbeat_of(self.global_position, cells[0]))),
                )
            }
        }
    }

    /// The search after `ticks` ticks.
    pub open spec fn after(self, ticks: nat) -> Walk
        decreases ticks,
    {
        if ticks == 0 {
            self
        } else {
            self.after((ticks - 1) as nat).step().0
        }
    }

    /// The event that tick number `tick` emits, counting from 0.
    pub open spec fn emitted(self, tick: nat) -> Option<MinionEvent> {
        self.after(tick).step().1
    }
}

impl<W> MinionState<W> {
    /// What holds of every minion: its search is sound.
    #[verifier::type_invariant]
    spec fn inv(self) -> bool {
        self.walk().wf()
    }

    /// The search that this state is in.
    pub closed spec fn walk(self) -> Walk {
        Walk {
            ready: self.ready,
            global_position: self.global_position,
            local_position: self.local_position,
            area_exhausted: self.area_exhausted,
            poi: self.poi,
            mission_area: match self.mission_area {
                Some(cells) => Some(cells@),
                None => None,
            },
        }
    }

    /// The slot and the wake handle that the driver and the event loop
    /// share.
    pub closed spec fn stream(self) -> SharedState<MinionEvent, W> {
        self.stream
    }

    /// An idle minion with an empty stream.
    pub fn new() -> (state: Self)
        ensures
            state.walk() == (Walk {
                ready: false,
                global_position: Coordinate { x: 0, y: 0 },
                local_position: Coordinate { x: 0, y: 0 },
                area_exhausted: false,
                poi: false,
                mission_area: None,
            }),
            state.stream().slot is None,
            state.stream().waker is None,
    {
        MinionState {
            ready: false,
            global_position: Coordinate { x: 0, y: 0 },
            local_position: Coordinate { x: 0, y: 0 },
            area_exhausted: false,
            poi: false,
            mission_area: None,
            stream: SharedState::new(),
        }
    }

    /// Whether a task has been accepted.
    pub fn is_ready(&self) -> (ready: bool)
        ensures
            ready == self.walk().ready,
    {
        self.ready
    }

    /// Whether the signal of exhaustion has been emitted for the current
    /// task.
    pub fn is_exhausted(&self) -> (exhausted: bool)
        ensures
            exhausted == self.walk().area_exhausted,
    {
        self.area_exhausted
    }

    /// The offset of the current sub-grid in the whole area.
    pub fn global_position(&self) -> (position: Coordinate)
        ensures
            position == self.walk().global_position,
    {
        self.global_position
    }

    /// The cell visited last, within the sub-grid.
    pub fn local_position(&self) -> (position: Coordinate)
        ensures
            position == self.walk().local_position,
    {
        self.local_position
    }

    /// Whether the cell visited last holds a point of interest.
    pub fn poi(&self) -> (poi: bool)
        ensures
            poi == self.walk().poi,
    {
        self.poi
    }

    /// The number of cells still to visit; 0 for an idle minion.
    pub fn remaining(&self) -> (cells: usize)
        ensures
            cells == match self.walk().mission_area {
                Some(cursor) => cursor.len(),
                None => 0,
            },
    {
        match &self.mission_area {
            Some(cursor) => cursor.len(),
            None => 0,
        }
    }

    /// Takes up `task` if it is addressed to `me` and every cell of it has a
    /// 32-bit position; changes nothing otherwise.
    ///
    /// An accepted task replaces whatever the minion was searching: the
    /// search starts over at the first cell of the new sub-grid. The stream
    /// is left as it is.
    pub fn delegate(&mut self, me: &MinionId, task: &DelegateTaskMessage) -> (outcome: Delegation)
        ensures
            final(self).stream() == old(self).stream(),
            outcome == Delegation::NotAddressed <==> task.peer_id@ != me@,
            outcome == Delegation::Accepted <==> task.peer_id@ == me@ && in_range(
                task.global_coordinates,
                grid_cells(task.area).len(),
                grid_width(task.area),
            ),
            outcome == Delegation::Accepted ==> final(self).walk() == Walk::delegated(
                task.global_coordinates,
                grid_cells(task.area),
                grid_width(task.area),
            ),
            outcome != Delegation::Accepted ==> final(self).walk() == old(self).walk(),
    {
        if !task.peer_id.is_same(me) {
            return Delegation::NotAddressed;
        }
        let rows: usize = task.area.nrows();
        let cols: usize = task.area.ncols();
        let offset = task.global_coordinates;
        if rows != 0 && cols != 0 {
            if rows - 1 > 0x7fff_ffff || cols - 1 > 0x7fff_ffff {
                return Delegation::OutOfRange;
            }
            let last_row: i64 = offset.x as i64 + (rows - 1) as i64;
            let last_col: i64 = offset.y as i64 + (cols - 1) as i64;
            if last_row > 0x7fff_ffff || last_col > 0x7fff_ffff {
                return Delegation::OutOfRange;
            }
        }
        let items = task.area.indexed_cells();
        let ghost cells = grid_cells(task.area);
        let ghost width = grid_width(task.area);
        let mut cursor: VecDeque<((i32, i32), u32)> = VecDeque::new();
        let mut at: usize = 0;
        while at < items.len()
            invariant
                at <= items.len(),
                items@ == row_major(cells, width),
                rows == cells.len(),
                cols == width,
                in_range(offset, cells.len(), width),
                cursor@ == local_cells(cells, width).subrange(0, at as int),
            decreases items.len() - at,
        {
            proof {
                lemma_cell_index(at as int, cells.len(), width);
            }
            let ((row, col), value) = items[at];
            cursor.push_back(((row as i32, col as i32), value));
            at = at + 1;
            assert(cursor@ =~= local_cells(cells, width).subrange(0, at as int));
        }
        assert(cursor@ =~= local_cells(cells, width));
        proof {
            assert forall|k: int| 0 <= k < cursor@.len() implies offset.can_add(
                position_of(#[trigger] cursor@[k]),
            ) by {
                lemma_cell_index(k, cells.len(), width);
            }
        }
        self.mission_area = None;
        self.ready = true;
        self.global_position = offset;
        self.local_position = Coordinate { x: 0, y: 0 };
        self.area_exhausted = false;
        self.poi = false;
        self.mission_area = Some(cursor);
        Delegation::Accepted
    }

    /// One tick of the driver on the search alone: visits the next cell and
    /// returns the event to emit, if any. See [`Walk::step`].
    pub fn step(&mut self) -> (event: Option<MinionEvent>)
        ensures
            (final(self).walk(), event) == old(self).walk().step(),
            final(self).stream() == old(self).stream(),
    {
        proof {
            use_type_invariant(&*self);
        }
        if !self.ready || self.area_exhausted || self.mission_area.is_none() {
            return None;
        }
        let mut taken: MinionState<W> = MinionState::new();
        core::mem::swap(self, &mut taken);
        let MinionState { ready, global_position, local_position, area_exhausted, poi, mission_area, stream } =
            taken;
        let mut cursor = mission_area.unwrap();
        let ghost cells = cursor@;
        match cursor.pop_front() {
            None => {
                *self =
                MinionState {
                    ready,
                    global_position,
                    local_position,
                    area_exhausted: true,
                    poi,
                    mission_area: Some(cursor),
                    stream,
                };
                Some(MinionEvent::Exhausted)
            },
            Some(((row, col), value)) => {
                let local = Coordinate { x: row, y: col };
                proof {
                    assert(global_position.can_add(position_of(cells[0])));
                    assert(cursor@ =~= cells.skip(1));
                    assert forall|k: int| 0 <= k < cursor@.len() implies global_position.can_add(
                        position_of(#[trigger] cursor@[k]),
                    ) by {
                        assert(cursor@[k] == cells[k + 1]);
                    }
                }
                *self =
                MinionState {
                    ready,
                    global_position,
                    local_position: local,
                    area_exhausted,
                    poi: value != 0,
                    mission_area: Some(cursor),
                    stream,
                };
                Some(
                    MinionEvent::Heartbeat(
                        MinionHeartbeat { position: global_position + local, poi: value != 0 },
                    ),
                )
            },
        }
    }

    /// One tick of the driver: takes a step and stores the event, if there
    /// is one, in the stream. Returns the wake handle that the event loop
    /// left, for the caller to invoke once the state is released.
    pub fn tick(&mut self) -> (wake: Option<W>)
        ensures
            final(self).walk() == old(self).walk().step().0,
            match old(self).walk().step().1 {
                Some(event) => (final(self).stream(), wake) == old(self).stream().spec_publish(event),
                None => final(self).stream() == old(self).stream() && wake is None,
            },
    {
        let event = self.step();
        proof {
            use_type_invariant(&*self);
        }
        match event {
            Some(event) => self.stream.publish(event),
            None => None,
        }
    }

    /// The event loop's poll: the event that waits in the stream, or `None`
    /// with `waker` left behind to be woken by.
    pub fn poll_next(&mut self, waker: W) -> (event: Option<MinionEvent>)
        ensures
            final(self).walk() == old(self).walk(),
            (final(self).stream(), event) == old(self).stream().spec_poll_next(waker),
    {
        proof {
            use_type_invariant(&*self);
        }
        self.stream.poll_next(waker)
    }
}

/// Item `k` of the cells of `rows` rows of `width` cells lies in row
/// `k / width` at column `k % width`.
pub proof fn lemma_cell_index(k: int, rows: nat, width: nat)
    requires
        0 <= k < rows * width,
    ensures
        width > 0,
        0 <= k / (width as int) < rows,
        0 <= k % (width as int) < width,
        k == (k / (width as int)) * width + k % (width as int),
{
    let w = width as int;
    let r = rows as int;
    assert(w > 0) by (nonlinear_arith)
        requires
            0 <= k < r * w,
            w >= 0,
    ;
    assert(0 <= k / w < r && 0 <= k % w < w && k == (k / w) * w + k % w) by (nonlinear_arith)
        requires
            0 <= k < r * w,
            w > 0,
    ;
}

/// What a search looks like after any number of ticks: the offset stays, the
/// cursor has lost one cell per tick until it is empty, and the tick after
/// that has marked the area exhausted.
pub proof fn lemma_after(walk: Walk, ticks: nat)
    requires
        walk.searching(),
    ensures
        ({
            let cells = walk.mission_area->0;
            let now = walk.after(ticks);
            &&& now.ready
            &&& now.global_position == walk.global_position
            &&& ticks <= cells.len() ==> !now.area_exhausted && now.mission_area == Some(
                cells.skip(ticks as int),
            )
            &&& ticks > cells.len() ==> now.area_exhausted
            &&& 0 < ticks <= cells.len() ==> now.local_position == position_of(cells[ticks - 1])
                && now.poi == (cells[ticks - 1].1 != 0)
        }),
    decreases ticks,
{
    let cells = walk.mission_area->0;
    if ticks == 0 {
        assert(cells.skip(0) =~= cells);
    } else {
        let before = walk.after((ticks - 1) as nat);
        lemma_after(walk, (ticks - 1) as nat);
        if ticks <= cells.len() {
            assert(cells.skip(ticks - 1).skip(1) =~= cells.skip(ticks as int));
        }
    }
}

/// A search visits the cells of its cursor in order, each once: tick `k`
/// emits the heartbeat of cell `k` and leaves the minion at that cell. The
/// tick after the last cell emits the one signal of exhaustion, and every
/// later tick emits nothing.
pub proof fn lemma_search_in_order(walk: Walk, tick: nat)
    requires
        walk.searching(),
    ensures
        ({
            let cells = walk.mission_area->0;
            &&& tick < cells.len() ==> {
                &&& walk.emitted(tick) == Some(
                    MinionEvent::Heartbeat(heartbeat_of(walk.global_position, cells[tick as int])),
                )
                &&& walk.after(tick + 1).local_position == position_of(cells[tick as int])
            }
            &&& tick == cells.len() ==> walk.emitted(tick) == Some(MinionEvent::Exhausted)
            &&& tick > cells.len() ==> walk.emitted(tick) is None
        }),
{
    lemma_after(walk, tick);
    lemma_after(walk, tick + 1);
}

/// A minion that was given a sub-grid visits its cells in row-major order,
/// each once: tick `k` visits row `k / width`, column `k % width`, and
/// reports that place shifted by the offset of the sub-grid and whether the
/// cell there is other than 0. The tick after the last cell emits the one
/// signal of exhaustion, and every later tick emits nothing.
pub proof fn lemma_delegated_search(offset: Coordinate, cells: Seq<Seq<u32>>, width: nat, tick: nat)
    ensures
        ({
            let walk = Walk::delegated(offset, cells, width);
            let row = tick as int / width as int;
            let col = tick as int % width as int;
            let local = Coordinate { x: row as i32, y: col as i32 };
            &&& tick < cells.len() * width ==> {
                &&& walk.after(tick + 1).local_position == local
                &&& walk.emitted(tick) == Some(
                    MinionEvent::Heartbeat(
                        MinionHeartbeat { position: offset.sum(local), poi: cells[row][col] != 0 },
                    ),
                )
            }
            &&& tick == cells.len() * width ==> walk.emitted(tick) == Some(MinionEvent::Exhausted)
            &&& tick > cells.len() * width ==> walk.emitted(tick) is None
        }),
{
    lemma_search_in_order(Walk::delegated(offset, cells, width), tick);
}

} // verus!
