//! Splitting the mission area among the minions.
//!
//! The area is cut along its longer axis into as many contiguous chunks as
//! there are minions. Every chunk but the last has the same length; the last
//! one also takes what the division leaves over.

use vstd::prelude::*;
use crate::grid::{grid_cells, grid_width, rectangular, sliced_cells, Grid};

verus! {

/// A sub-grid together with the place of its first cell in the whole area.
pub struct Placed {
    pub row: int,
    pub col: int,
    pub cells: Seq<Seq<u32>>,
    pub width: nat,
}

/// What a pair of origin and sub-grid stands for.
pub open spec fn placed(part: ([i32; 2], Grid)) -> Placed {
    Placed {
        row: part.0[0] as int,
        col: part.0[1] as int,
        cells: grid_cells(part.1),
        width: grid_width(part.1),
    }
}

/// What a sequence of pairs of origin and sub-grid stands for.
pub open spec fn placed_all(parts: Seq<([i32; 2], Grid)>) -> Seq<Placed> {
    Seq::new(parts.len(), |k: int| placed(parts[k]))
}

/// The axis along which an area of `rows` by `cols` is cut: the longer one,
/// and axis 0 when both are equally long.
pub open spec fn dominant_axis(rows: nat, cols: nat) -> int {
    if rows >= cols { 0 } else { 1 }
}

/// The length of the dominant axis.
pub open spec fn dominant_len(rows: nat, cols: nat) -> nat {
    if rows >= cols { rows } else { cols }
}

/// Where chunk `k` of `count` starts on an axis of length `size`.
pub open spec fn chunk_start(size: nat, count: nat, k: int) -> int {
    k * (size / count)
}

/// How long chunk `k` of `count` is on an axis of length `size`: the last
/// chunk takes the remainder as well.
pub open spec fn chunk_len(size: nat, count: nat, k: int) -> int {
    if k == count - 1 {
        (size / count + size % count) as int
    } else {
        (size / count) as int
    }
}

/// Chunk `k` of the `count` chunks of an area.
pub open spec fn chunk(cells: Seq<Seq<u32>>, width: nat, count: nat, k: int) -> Placed {
    let axis = dominant_axis(cells.len(), width);
    let size = dominant_len(cells.len(), width);
    let start = chunk_start(size, count, k);
    let end = start + chunk_len(size, count, k);
    Placed {
        row: if axis == 0 { start } else { 0 },
        col: if axis == 0 { 0 } else { start },
        cells: sliced_cells(cells, axis, start, end),
        width: if axis == 0 { width } else { (end - start) as nat },
    }
}

/// The chunks into which an area is split for `count` minions, in the order
/// of their offsets. With at most one minion the area stays whole.
pub open spec fn partition(cells: Seq<Seq<u32>>, width: nat, count: nat) -> Seq<Placed> {
    if count <= 1 {
        seq![Placed { row: 0, col: 0, cells: cells, width: width }]
    } else {
        Seq::new(count, |k: int| chunk(cells, width, count, k))
    }
}

/// The length of a placed sub-grid along `axis`.
pub open spec fn extent(part: Placed, axis: int) -> nat {
    if axis == 0 { part.cells.len() } else { part.width }
}

/// The cell at row `i` and column `j` of the whole area lies in `part`.
pub open spec fn holds(part: Placed, i: int, j: int) -> bool {
    &&& part.row <= i < part.row + part.cells.len()
    &&& part.col <= j < part.col + part.width
}

/// `part` is a rectangle that lies within an area of `rows` by `cols`.
pub open spec fn inside(part: Placed, rows: nat, cols: nat) -> bool {
    &&& 0 <= part.row
    &&& part.row + part.cells.len() <= rows
    &&& 0 <= part.col
    &&& part.col + part.width <= cols
    &&& rectangular(part.cells, part.width)
}

/// The parts tile the area: each lies within it, every cell of the area lies
/// in exactly one part, and that part has the cell's value at that place.
pub open spec fn covers(cells: Seq<Seq<u32>>, width: nat, parts: Seq<Placed>) -> bool {
    &&& forall|k: int| 0 <= k < parts.len() ==> inside(#[trigger] parts[k], cells.len(), width)
    &&& forall|i: int, j: int|
        0 <= i < cells.len() && 0 <= j < width ==> {
            let k = #[trigger] owner(parts, i, j);
            &&& 0 <= k < parts.len()
            &&& holds(parts[k], i, j)
            &&& parts[k].cells[i - parts[k].row][j - parts[k].col] == cells[i][j]
        }
    &&& forall|k: int, i: int, j: int|
        0 <= k < parts.len() && #[trigger] holds(parts[k], i, j) ==> k == owner(parts, i, j)
}

/// A part that holds the cell at row `i` and column `j`.
pub open spec fn owner(parts: Seq<Placed>, i: int, j: int) -> int {
    choose|k: int| 0 <= k < parts.len() && holds(parts[k], i, j)
}

/// The area that results when every cell is read from the part that holds
/// it, at the cell's place less the part's origin.
pub open spec fn reassemble(parts: Seq<Placed>, rows: nat, cols: nat) -> Seq<Seq<u32>> {
    Seq::new(
        rows,
        |i: int|
            Seq::new(
                cols,
                |j: int|
                    {
                        let part = parts[owner(parts, i, j)];
                        part.cells[i - part.row][j - part.col]
                    },
            ),
    )
}

/// The chunk that holds index `at` of an axis of length `size` cut into
/// `count` chunks.
pub open spec fn chunk_of(size: nat, count: nat, at: int) -> int {
    let base = size / count;
    if base == 0 || at / (base as int) >= count {
        count - 1
    } else {
        at / (base as int)
    }
}

/// The chunks follow one another without a gap and end where the axis ends.
pub proof fn lemma_chunk_bounds(size: nat, count: nat, k: int)
    requires
        count >= 1,
        0 <= k < count,
    ensures
        0 <= chunk_start(size, count, k),
        0 <= chunk_len(size, count, k),
        chunk_start(size, count, k) + chunk_len(size, count, k) <= size,
        k < count - 1 ==> chunk_start(size, count, k) + chunk_len(size, count, k) == chunk_start(
            size,
            count,
            k + 1,
        ),
        k == count - 1 ==> chunk_start(size, count, k) + chunk_len(size, count, k) == size,
{
    let base = (size / count) as int;
    let rem = (size % count) as int;
    let c = count as int;
    let s = size as int;
    assert(s == c * base + rem && 0 <= rem && 0 <= base) by (nonlinear_arith)
        requires
            c >= 1,
            s >= 0,
            base == s / c,
            rem == s % c,
    ;
    assert(0 <= k * base) by (nonlinear_arith)
        requires
            0 <= k,
            0 <= base,
    ;
    assert((k + 1) * base == k * base + base) by (nonlinear_arith);
    assert((k + 1) * base <= c * base) by (nonlinear_arith)
        requires
            k + 1 <= c,
            0 <= base,
    ;
}

/// Index `at` of the axis lies in chunk `chunk_of(size, count, at)` and in no
/// other.
pub proof fn lemma_chunk_of(size: nat, count: nat, at: int, k: int)
    requires
        count >= 1,
        0 <= at < size,
        0 <= k < count,
    ensures
        0 <= chunk_of(size, count, at) < count,
        (chunk_start(size, count, k) <= at < chunk_start(size, count, k) + chunk_len(size, count, k))
            <==> k == chunk_of(size, count, at),
{
    let base = (size / count) as int;
    let rem = (size % count) as int;
    let c = count as int;
    lemma_chunk_bounds(size, count, k);
    let s = size as int;
    assert(s == c * base + rem && 0 <= rem < c && 0 <= base) by (nonlinear_arith)
        requires
            c >= 1,
            s >= 0,
            base == s / c,
            rem == s % c,
    ;
    if base == 0 {
        assert(k * base == 0) by (nonlinear_arith)
            requires
                base == 0,
        ;
    } else {
        let q = at / base;
        assert(q * base <= at < q * base + base && 0 <= q) by (nonlinear_arith)
            requires
                base > 0,
                at >= 0,
                q == at / base,
        ;
        if k < q {
            assert(k * base + base <= q * base) by (nonlinear_arith)
                requires
                    k + 1 <= q,
                    base > 0,
            ;
        }
        if k > q {
            assert(q * base + base <= k * base) by (nonlinear_arith)
                requires
                    q + 1 <= k,
                    base > 0,
            ;
        }
    }
}

/// Cutting an area into chunks and putting every chunk back at its offset
/// gives the area again: the chunks lie within the area, no cell is left out
/// and no two chunks share a cell.
pub proof fn lemma_partition_covers(cells: Seq<Seq<u32>>, width: nat, count: nat)
    requires
        rectangular(cells, width),
    ensures
        covers(cells, width, partition(cells, width, count)),
        reassemble(partition(cells, width, count), cells.len(), width) == cells,
{
    let parts = partition(cells, width, count);
    let rows = cells.len();
    let axis = dominant_axis(rows, width);
    let size = dominant_len(rows, width);
    assert forall|k: int| 0 <= k < parts.len() implies inside(#[trigger] parts[k], rows, width) by {
        if count > 1 {
            lemma_chunk_bounds(size, count, k);
        }
    }
    assert forall|i: int, j: int| 0 <= i < rows && 0 <= j < width implies {
        let k = #[trigger] owner(parts, i, j);
        &&& 0 <= k < parts.len()
        &&& holds(parts[k], i, j)
        &&& parts[k].cells[i - parts[k].row][j - parts[k].col] == cells[i][j]
    } by {
        let w = if count <= 1 {
            0
        } else if axis == 0 {
            chunk_of(size, count, i)
        } else {
            chunk_of(size, count, j)
        };
        if count > 1 {
            lemma_chunk_of(size, count, if axis == 0 { i } else { j }, w);
            lemma_chunk_bounds(size, count, w);
        }
        assert(0 <= w < parts.len() && holds(parts[w], i, j));
        let k = owner(parts, i, j);
        if count > 1 {
            lemma_chunk_bounds(size, count, k);
        }
    }
    assert forall|k: int, i: int, j: int|
        0 <= k < parts.len() && #[trigger] holds(parts[k], i, j) implies k == owner(parts, i, j) by {
        let o = owner(parts, i, j);
        if count > 1 {
            let at = if axis == 0 { i } else { j };
            lemma_chunk_bounds(size, count, k);
            lemma_chunk_bounds(size, count, o);
            lemma_chunk_of(size, count, at, k);
            lemma_chunk_of(size, count, at, o);
        }
    }
    let back = reassemble(parts, rows, width);
    assert forall|i: int| 0 <= i < rows implies #[trigger] back[i] == cells[i] by {
        assert forall|j: int| 0 <= j < width implies back[i][j] == cells[i][j] by {
            let k = owner(parts, i, j);
        }
        assert(back[i] =~= cells[i]);
    }
    assert(back =~= cells);
}

/// There are as many chunks as minions, and one chunk when there is no
/// minion.
pub proof fn lemma_partition_count(cells: Seq<Seq<u32>>, width: nat, count: nat)
    ensures
        partition(cells, width, count).len() == if count >= 1 { count } else { 1 },
{
}

/// With more than one minion every chunk but the last is as long as the
/// whole quotient of the dominant axis by the number of minions, and the
/// last is longer by the remainder. Every chunk spans all of the other axis
/// and starts where the chunks before it end.
pub proof fn lemma_partition_skew(cells: Seq<Seq<u32>>, width: nat, count: nat, k: int)
    requires
        count > 1,
        0 <= k < count,
    ensures
        ({
            let axis = dominant_axis(cells.len(), width);
            let size = dominant_len(cells.len(), width);
            let part = partition(cells, width, count)[k];
            &&& k < count - 1 ==> extent(part, axis) == size / count
            &&& k == count - 1 ==> extent(part, axis) == size / count + size % count
            &&& extent(part, 1 - axis) == if axis == 0 { width } else { cells.len() }
            &&& axis == 0 ==> part.row == k * (size / count) && part.col == 0
            &&& axis == 1 ==> part.col == k * (size / count) && part.row == 0
        }),
{
    lemma_chunk_bounds(dominant_len(cells.len(), width), count, k);
}

/// Splits `area` among `minion_count` minions.
///
/// The result pairs each sub-grid with the offset `[row, column]` of its
/// first cell in `area`, in the order of the offsets.
pub fn split_mission_area(area: Grid, minion_count: usize) -> (parts: Vec<([i32; 2], Grid)>)
    requires
        0 < grid_cells(area).len() <= i32::MAX,
        0 < grid_width(area) <= i32::MAX,
    ensures
        placed_all(parts@) == partition(grid_cells(area), grid_width(area), minion_count as nat),
        parts@.len() == if minion_count >= 1 { minion_count } else { 1 },
        covers(grid_cells(area), grid_width(area), placed_all(parts@)),
        reassemble(placed_all(parts@), grid_cells(area).len(), grid_width(area)) == grid_cells(area),
{
    let rows: usize = area.nrows();
    let cols: usize = area.ncols();
    let ghost cells = grid_cells(area);
    let ghost width = grid_width(area);
    let ghost count = minion_count as nat;
    proof {
        lemma_partition_covers(cells, width, count);
    }
    let mut parts: Vec<([i32; 2], Grid)> = Vec::new();
    if minion_count <= 1 {
        parts.push(([0i32, 0i32], area));
        assert(placed_all(parts@) =~= partition(cells, width, count));
        return parts;
    }
    let axis: usize = if rows >= cols { 0 } else { 1 };
    let size: usize = if rows >= cols { rows } else { cols };
    let base: usize = size / minion_count;
    let rem: usize = size % minion_count;
    let mut k: usize = 0;
    let mut start: usize = 0;
    while k < minion_count
        invariant
            minion_count > 1,
            count == minion_count,
            cells == grid_cells(area),
            width == grid_width(area),
            rows == cells.len(),
            cols == width,
            axis == dominant_axis(cells.len(), width),
            size == dominant_len(cells.len(), width),
            size <= i32::MAX,
            base == size / minion_count,
            rem == size % minion_count,
            k <= minion_count,
            k < minion_count ==> start == chunk_start(size as nat, count, k as int),
            parts@.len() == k,
            forall|j: int| 0 <= j < k ==> placed(#[trigger] parts@[j]) == chunk(cells, width, count, j),
        decreases minion_count - k,
    {
        proof {
            lemma_chunk_bounds(size as nat, count, k as int);
            if k + 1 < minion_count {
                lemma_chunk_bounds(size as nat, count, k + 1);
            }
        }
        let len: usize = if k == minion_count - 1 { base + rem } else { base };
        let end: usize = start + len;
        let part = area.slice_axis(axis, start, end);
        let mut origin: [i32; 2] = [0i32, 0i32];
        origin[axis] = start as i32;
        parts.push((origin, part));
        k = k + 1;
        start = end;
    }
    assert(placed_all(parts@) =~= partition(cells, width, count));
    parts
}

} // verus!
