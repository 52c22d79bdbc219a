//! The generation update rule: its mathematical statement, the engine that
//! computes a generation into a second buffer, and the swap that publishes it.
use vstd::prelude::*;
use crate::life_matrix::{in_grid, LifeMatrix};

verus! {

/// 1 when `(x, y)` is live in `live`, else 0.
pub open spec fn count_if_live(live: Set<(int, int)>, x: int, y: int) -> int {
    if live.contains((x, y)) {
        1
    } else {
        0
    }
}

/// Number of live cells among the eight cells around `(x, y)`.
pub open spec fn neighbor_count(live: Set<(int, int)>, x: int, y: int) -> int {
    count_if_live(live, x + 1, y + 1) + count_if_live(live, x, y + 1) + count_if_live(
        live,
        x - 1,
        y + 1,
    ) + count_if_live(live, x + 1, y) + count_if_live(live, x - 1, y) + count_if_live(
        live,
        x + 1,
        y - 1,
    ) + count_if_live(live, x, y - 1) + count_if_live(live, x - 1, y - 1)
}

/// Whether a cell is live in the next generation: a live cell survives with
/// two or three live neighbours, a dead cell is born with exactly three.
pub open spec fn lives_on(alive: bool, neighbors: int) -> bool {
    if alive {
        neighbors == 2 || neighbors == 3
    } else {
        neighbors == 3
    }
}

/// The live cells of the generation after `live` on a `cols × rows` grid;
/// cells outside the grid are dead and stay dead.
pub open spec fn next_generation(cols: int, rows: int, live: Set<(int, int)>) -> Set<(int, int)> {
    Set::new(
        |p: (int, int)|
            in_grid(cols, rows, p.0, p.1) && lives_on(live.contains(p), neighbor_count(live, p.0, p.1)),
    )
}

/// The live cells `n` generations after `live`.
pub open spec fn generations(cols: int, rows: int, live: Set<(int, int)>, n: nat) -> Set<(int, int)>
    decreases n,
{
    if n == 0 {
        live
    } else {
        next_generation(cols, rows, generations(cols, rows, live, (n - 1) as nat))
    }
}

/// The four cells of a 2×2 square whose top-left cell is `(x, y)`.
pub open spec fn square(x: int, y: int) -> Set<(int, int)> {
    set![(x, y), (x + 1, y), (x, y + 1), (x + 1, y + 1)]
}

/// Three cells in a row centred on `(x, y)`.
pub open spec fn row_of_three(x: int, y: int) -> Set<(int, int)> {
    set![(x - 1, y), (x, y), (x + 1, y)]
}

/// Three cells in a column centred on `(x, y)`.
pub open spec fn column_of_three(x: int, y: int) -> Set<(int, int)> {
    set![(x, y - 1), (x, y), (x, y + 1)]
}

/// A live cell with at most one live neighbour is dead in the next generation.
pub proof fn lemma_lonely_cell_dies(cols: int, rows: int, live: Set<(int, int)>, x: int, y: int)
    requires
        live.contains((x, y)),
        neighbor_count(live, x, y) <= 1,
    ensures
        !next_generation(cols, rows, live).contains((x, y)),
{
}

/// A 2×2 square of live cells, alone on the grid and inside it, is the
/// same in the next generation.
pub proof fn lemma_square_is_still(cols: int, rows: int, x: int, y: int)
    requires
        0 <= x,
        x + 1 < cols,
        0 <= y,
        y + 1 < rows,
    ensures
        next_generation(cols, rows, square(x, y)) == square(x, y),
{
    let live = square(x, y);
    let next = next_generation(cols, rows, live);
    assert forall|p: (int, int)| #[trigger] next.contains(p) == live.contains(p) by {
        let n = neighbor_count(live, p.0, p.1);
        if live.contains(p) {
            assert(n == 3);
        } else {
            assert(n <= 2);
        }
    }
    assert(next =~= live);
}

/// A 2×2 square of live cells, alone on the grid and inside it, stays the
/// same in every later generation.
pub proof fn lemma_square_stays(cols: int, rows: int, x: int, y: int, n: nat)
    requires
        0 <= x,
        x + 1 < cols,
        0 <= y,
        y + 1 < rows,
    ensures
        generations(cols, rows, square(x, y), n) == square(x, y),
    decreases n,
{
    if n > 0 {
        lemma_square_stays(cols, rows, x, y, (n - 1) as nat);
        lemma_square_is_still(cols, rows, x, y);
    }
}

proof fn lemma_row_becomes_column(cols: int, rows: int, x: int, y: int)
    requires
        1 <= x,
        x + 1 < cols,
        1 <= y,
        y + 1 < rows,
    ensures
        next_generation(cols, rows, row_of_three(x, y)) == column_of_three(x, y),
{
    let row = row_of_three(x, y);
    let column = column_of_three(x, y);
    let next = next_generation(cols, rows, row);
    assert forall|p: (int, int)| #[trigger] next.contains(p) == column.contains(p) by {
        let n = neighbor_count(row, p.0, p.1);
        if p.0 < x - 2 || p.0 > x + 2 || p.1 < y - 1 || p.1 > y + 1 {
            assert(n == 0);
        } else if p.1 == y {
            if p.0 == x {
                assert(n == 2);
            } else {
                assert(n <= 1);
            }
        } else if p.0 == x {
            assert(n == 3);
        } else {
            assert(n <= 2);
        }
    }
    assert(next =~= column);
}

proof fn lemma_column_becomes_row(cols: int, rows: int, x: int, y: int)
    requires
        1 <= x,
        x + 1 < cols,
        1 <= y,
        y + 1 < rows,
    ensures
        next_generation(cols, rows, column_of_three(x, y)) == row_of_three(x, y),
{
    let row = row_of_three(x, y);
    let column = column_of_three(x, y);
    let next = next_generation(cols, rows, column);
    assert forall|p: (int, int)| #[trigger] next.contains(p) == row.contains(p) by {
        let n = neighbor_count(column, p.0, p.1);
        if p.1 < y - 2 || p.1 > y + 2 || p.0 < x - 1 || p.0 > x + 1 {
            assert(n == 0);
        } else if p.0 == x {
            if p.1 == y {
                assert(n == 2);
            } else {
                assert(n <= 1);
            }
        } else if p.1 == y {
            assert(n == 3);
        } else {
            assert(n <= 2);
        }
    }
    assert(next =~= row);
}

/// A row of three live cells, alone on the grid and with room above and
/// below it, turns into a column of three and back: period two.
pub proof fn lemma_blinker_oscillates(cols: int, rows: int, x: int, y: int)
    requires
        1 <= x,
        x + 1 < cols,
        1 <= y,
        y + 1 < rows,
    ensures
        next_generation(cols, rows, row_of_three(x, y)) == column_of_three(x, y),
        next_generation(cols, rows, column_of_three(x, y)) == row_of_three(x, y),
        generations(cols, rows, row_of_three(x, y), 2) == row_of_three(x, y),
{
    let row = row_of_three(x, y);
    let column = column_of_three(x, y);
    lemma_row_becomes_column(cols, rows, x, y);
    lemma_column_becomes_row(cols, rows, x, y);
    assert(generations(cols, rows, row, 0) == row);
    assert(generations(cols, rows, row, 1) == next_generation(cols, rows, row));
    assert(generations(cols, rows, row, 2) == next_generation(cols, rows, column));
}

fn one_if(b: bool) -> (r: u8)
    ensures
        r == (if b { 1int } else { 0int }),
{
    if b {
        1
    } else {
        0
    }
}

/// Number of live cells around `(x, y)` in `g`.
fn live_neighbors(g: &LifeMatrix, x: i32, y: i32) -> (r: u8)
    requires
        g.wf(),
        i32::MIN < x < i32::MAX,
        i32::MIN < y < i32::MAX,
    ensures
        r == neighbor_count(g@, x as int, y as int),
{
    one_if(g.get(x + 1, y + 1)) + one_if(g.get(x, y + 1)) + one_if(g.get(x - 1, y + 1)) + one_if(
        g.get(x + 1, y),
    ) + one_if(g.get(x - 1, y)) + one_if(g.get(x + 1, y - 1)) + one_if(g.get(x, y - 1)) + one_if(
        g.get(x - 1, y - 1),
    )
}

/// Writes into `next` the generation after `current`, reading `current` only.
pub fn compute_next(current: &LifeMatrix, next: &mut LifeMatrix)
    requires
        current.wf(),
        old(next).wf(),
        old(next).num_cols() == current.num_cols(),
        old(next).num_rows() == current.num_rows(),
    ensures
        final(next).wf(),
        final(next).num_cols() == current.num_cols(),
        final(next).num_rows() == current.num_rows(),
        final(next)@ == next_generation(
            current.num_cols() as int,
            current.num_rows() as int,
            current@,
        ),
{
    let cols = current.cols();
    let rows = current.rows();
    let ghost target = next_generation(cols as int, rows as int, current@);
    let ghost start = next@;
    let mut x: usize = 0;
    while x < cols
        invariant
            current.wf(),
            next.wf(),
            cols == current.num_cols(),
            rows == current.num_rows(),
            cols <= i32::MAX,
            rows <= i32::MAX,
            next.num_cols() == cols,
            next.num_rows() == rows,
            x <= cols,
            target == next_generation(cols as int, rows as int, current@),
            forall|p: (int, int)|
                #[trigger] next@.contains(p) == if in_grid(x as int, rows as int, p.0, p.1) {
                    target.contains(p)
                } else {
                    start.contains(p)
                },
        decreases cols - x,
    {
        let mut y: usize = 0;
        while y < rows
            invariant
                current.wf(),
                next.wf(),
                cols == current.num_cols(),
                rows == current.num_rows(),
                cols <= i32::MAX,
                rows <= i32::MAX,
                next.num_cols() == cols,
                next.num_rows() == rows,
                x < cols,
                y <= rows,
                target == next_generation(cols as int, rows as int, current@),
                forall|p: (int, int)|
                    #[trigger] next@.contains(p) == if in_grid(x as int, rows as int, p.0, p.1) || (
                    p.0 == x && 0 <= p.1 < y) {
                        target.contains(p)
                    } else {
                        start.contains(p)
                    },
            decreases rows - y,
        {
            let cx = x as i32;
            let cy = y as i32;
            let alive = current.get(cx, cy);
            let sum = live_neighbors(current, cx, cy);
            let val = if alive {
                sum == 2 || sum == 3
            } else {
                sum == 3
            };
            next.set(cx, cy, val);
            y = y + 1;
        }
        x = x + 1;
    }
    proof {
        assert forall|p: (int, int)| #[trigger] next@.contains(p) == target.contains(p) by {
            if !in_grid(cols as int, rows as int, p.0, p.1) {
                assert(!start.contains(p));
            }
        }
        assert(next@ =~= target);
    }
}

/// The two buffers after a tick: `current` unchanged, `next` holding the
/// generation after `current`.
pub open spec fn after_tick(cols: int, rows: int, buffers: (Set<(int, int)>, Set<(int, int)>)) -> (
    Set<(int, int)>,
    Set<(int, int)>,
) {
    (buffers.0, next_generation(cols, rows, buffers.0))
}

/// The two buffers after a publish: their roles exchanged.
pub open spec fn after_publish(buffers: (Set<(int, int)>, Set<(int, int)>)) -> (
    Set<(int, int)>,
    Set<(int, int)>,
) {
    (buffers.1, buffers.0)
}

/// Publishing right after a tick makes the current generation exactly the
/// generation after the one shown before, cell for cell: never a mix of two
/// generations. The old current generation becomes the spare buffer.
pub proof fn lemma_publish_after_tick(
    cols: int,
    rows: int,
    buffers: (Set<(int, int)>, Set<(int, int)>),
)
    ensures
        after_publish(after_tick(cols, rows, buffers)).0 == next_generation(cols, rows, buffers.0),
        after_publish(after_tick(cols, rows, buffers)).1 == buffers.0,
{
}

/// Makes the finished generation in `next` the current one; the old current
/// generation becomes the buffer for the next tick.
pub fn publish(current: &mut LifeMatrix, next: &mut LifeMatrix)
    ensures
        *final(current) == *old(next),
        *final(next) == *old(current),
{
    std::mem::swap(current, next);
}

} // verus!
