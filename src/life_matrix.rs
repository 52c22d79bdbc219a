//! Cell stores: the flat, bounded grid `LifeMatrix` stored row-major, with
//! the 8×8 block and the growable quadtree of blocks in submodules.
pub mod matrix;
pub mod quadtree;

use vstd::prelude::*;
use vstd::std_specs::slice::into_iter_elts;
use vstd::std_specs::iter::IteratorSpec;

verus! {

/// Whether `(x, y)` lies inside a `cols × rows` grid.
pub open spec fn in_grid(cols: int, rows: int, x: int, y: int) -> bool {
    0 <= x < cols && 0 <= y < rows
}

/// Position of cell `(x, y)` in the row-major storage of a grid with `cols` columns.
pub open spec fn cell_index(cols: int, x: int, y: int) -> int {
    x + y * cols
}

proof fn lemma_index_in_bounds(cols: int, rows: int, x: int, y: int)
    requires
        in_grid(cols, rows, x, y),
    ensures
        0 <= cell_index(cols, x, y) < cols * rows,
{
    assert(0 <= y * cols) by (nonlinear_arith)
        requires
            0 <= y,
            0 <= cols,
    ;
    assert(y * cols + cols <= rows * cols) by (nonlinear_arith)
        requires
            y < rows,
            0 <= cols,
    ;
    assert(rows * cols == cols * rows) by (nonlinear_arith);
}

proof fn lemma_index_injective(cols: int, x: int, y: int, i: int, j: int)
    requires
        0 <= x < cols,
        0 <= i < cols,
        0 <= y,
        0 <= j,
        cell_index(cols, x, y) == cell_index(cols, i, j),
    ensures
        x == i,
        y == j,
{
    if y < j {
        assert(y * cols + cols <= j * cols) by (nonlinear_arith)
            requires
                y < j,
                0 <= cols,
        ;
    } else if j < y {
        assert(j * cols + cols <= y * cols) by (nonlinear_arith)
            requires
                j < y,
                0 <= cols,
        ;
    }
}

/// Relies on `rand::random::<bool>()`: a value drawn from the thread-local
/// generator. Nothing is promised of it.
#[verifier::external_body]
fn coin_flip() -> bool {
    rand::random::<bool>()
}

/// A `cols × rows` grid of cells; reads outside the grid see dead cells.
pub struct LifeMatrix {
    cols: usize,
    rows: usize,
    size: usize,
    data: Vec<bool>,
}

impl View for LifeMatrix {
    type V = Set<(int, int)>;

    /// The live cells, all inside the grid.
    open spec fn view(&self) -> Set<(int, int)> {
        Set::new(|p: (int, int)| self.alive(p.0, p.1))
    }
}

impl LifeMatrix {
    /// The storage agrees with the dimensions, and every cell has a
    /// coordinate that fits in an `i32`.
    pub closed spec fn wf(&self) -> bool {
        &&& self.size == self.cols * self.rows
        &&& self.data@.len() == self.size
        &&& self.cols <= i32::MAX
        &&& self.rows <= i32::MAX
    }

    /// Number of columns.
    pub closed spec fn num_cols(&self) -> nat {
        self.cols as nat
    }

    /// Number of rows.
    pub closed spec fn num_rows(&self) -> nat {
        self.rows as nat
    }

    /// All cells in row-major order.
    pub closed spec fn cells(&self) -> Seq<bool> {
        self.data@
    }

    /// A well-formed grid holds `num_cols() * num_rows()` cells.
    pub proof fn lemma_cells_len(&self)
        requires
            self.wf(),
        ensures
            self.cells().len() == self.num_cols() * self.num_rows(),
    {
    }

    /// Whether cell `(x, y)` is live; false outside the grid.
    pub open spec fn alive(&self, x: int, y: int) -> bool {
        in_grid(self.num_cols() as int, self.num_rows() as int, x, y)
            && self.cells()[cell_index(self.num_cols() as int, x, y)]
    }

    /// An all-dead grid of `cols × rows` cells.
    pub fn new(cols: usize, rows: usize) -> (r: LifeMatrix)
        requires
            cols <= i32::MAX,
            rows <= i32::MAX,
            cols * rows <= usize::MAX,
        ensures
            r.wf(),
            r.num_cols() == cols,
            r.num_rows() == rows,
            r.cells() == Seq::new((cols * rows) as nat, |i: int| false),
            r@ == Set::<(int, int)>::empty(),
    {
        let size = cols * rows;
        let r = LifeMatrix { cols, rows, size, data: vec![false; size] };
        assert(r.cells() =~= Seq::new((cols * rows) as nat, |i: int| false));
        assert forall|p: (int, int)| !#[trigger] r@.contains(p) by {
            if in_grid(cols as int, rows as int, p.0, p.1) {
                lemma_index_in_bounds(cols as int, rows as int, p.0, p.1);
            }
        }
        assert(r@ =~= Set::<(int, int)>::empty());
        r
    }

    /// Number of columns.
    pub fn cols(&self) -> (r: usize)
        requires
            self.wf(),
        ensures
            r == self.num_cols(),
            r <= i32::MAX,
    {
        self.cols
    }

    /// Number of rows.
    pub fn rows(&self) -> (r: usize)
        requires
            self.wf(),
        ensures
            r == self.num_rows(),
            r <= i32::MAX,
    {
        self.rows
    }

    /// Whether cell `(x, y)` is live; false for any `(x, y)` outside the grid.
    pub fn get(&self, x: i32, y: i32) -> (r: bool)
        requires
            self.wf(),
        ensures
            r == self@.contains((x as int, y as int)),
            !in_grid(self.num_cols() as int, self.num_rows() as int, x as int, y as int) ==> !r,
    {
        if x < 0 || y < 0 || x as usize >= self.cols || y as usize >= self.rows {
            return false;
        }
        proof {
            lemma_index_in_bounds(self.cols as int, self.rows as int, x as int, y as int);
        }
        let i = x as usize + y as usize * self.cols;
        self.data[i]
    }

    /// Makes cell `(x, y)` live when `val` holds and dead otherwise; the
    /// other cells keep their state.
    pub fn set(&mut self, x: i32, y: i32, val: bool)
        requires
            old(self).wf(),
            in_grid(old(self).num_cols() as int, old(self).num_rows() as int, x as int, y as int),
        ensures
            final(self).wf(),
            final(self).num_cols() == old(self).num_cols(),
            final(self).num_rows() == old(self).num_rows(),
            final(self)@ == matrix::with_cell(old(self)@, x as int, y as int, val),
            final(self).cells() == old(self).cells().update(
                cell_index(old(self).num_cols() as int, x as int, y as int),
                val,
            ),
            final(self).cells().len() == final(self).num_cols() * final(self).num_rows(),
    {
        proof {
            lemma_index_in_bounds(self.cols as int, self.rows as int, x as int, y as int);
        }
        let i = x as usize + y as usize * self.cols;
        self.data.set(i, val);
        proof {
            let cols = self.cols as int;
            assert forall|p: (int, int)| #[trigger] self@.contains(p) == matrix::with_cell(
                old(self)@,
                x as int,
                y as int,
                val,
            ).contains(p) by {
                if in_grid(cols, self.rows as int, p.0, p.1) {
                    lemma_index_in_bounds(cols, self.rows as int, p.0, p.1);
                    if cell_index(cols, p.0, p.1) == i {
                        lemma_index_injective(cols, x as int, y as int, p.0, p.1);
                    }
                }
            }
            assert(self@ =~= matrix::with_cell(old(self)@, x as int, y as int, val));
        }
    }

    /// Gives cell `i` of the row-major order the state `cells[i]`; the size
    /// is unchanged.
    pub fn fill(&mut self, cells: &Vec<bool>)
        requires
            old(self).wf(),
            cells@.len() == old(self).num_cols() * old(self).num_rows(),
        ensures
            final(self).wf(),
            final(self).num_cols() == old(self).num_cols(),
            final(self).num_rows() == old(self).num_rows(),
            final(self).cells() == cells@,
    {
        let n = cells.len();
        let mut i: usize = 0;
        while i < n
            invariant
                self.wf(),
                self.cols == old(self).cols,
                self.rows == old(self).rows,
                n == cells@.len(),
                n == self.data@.len(),
                i <= n,
                forall|j: int| 0 <= j < i ==> #[trigger] self.data@[j] == cells@[j],
            decreases n - i,
        {
            self.data.set(i, cells[i]);
            i = i + 1;
        }
        assert(self.data@ =~= cells@);
    }

    /// Gives every cell a random state, drawn independently per cell; the
    /// size is unchanged.
    pub fn randomize(&mut self)
        requires
            old(self).wf(),
        ensures
            final(self).wf(),
            final(self).num_cols() == old(self).num_cols(),
            final(self).num_rows() == old(self).num_rows(),
            final(self).cells().len() == final(self).num_cols() * final(self).num_rows(),
    {
        let n = self.size;
        let mut drawn: Vec<bool> = Vec::new();
        let mut i: usize = 0;
        while i < n
            invariant
                i <= n,
                drawn@.len() == i,
            decreases n - i,
        {
            drawn.push(coin_flip());
            i = i + 1;
        }
        self.fill(&drawn);
    }

    /// All cells in row-major order (`x + y * cols`).
    pub fn get_iter(&self) -> (r: std::slice::Iter<'_, bool>)
        requires
            self.wf(),
        ensures
            into_iter_elts(r) == self.cells(),
            self.cells().len() == self.num_cols() * self.num_rows(),
    {
        broadcast use vstd::std_specs::slice::group_slice_axioms;

        let r = self.data.as_slice().iter();
        assert(IteratorSpec::remaining(&r).unref() =~= self.cells());
        r
    }
}

} // verus!
