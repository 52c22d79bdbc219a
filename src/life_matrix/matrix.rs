//! A dense 8×8 block of cells packed into one `u64`.
use vstd::prelude::*;

verus! {

/// Bit of the backing word that holds cell `(x, y)`.
pub open spec fn bit_index(x: int, y: int) -> int {
    (7 - x) + (7 - y) * 8
}

/// Whether bit `i` of `m` is one.
pub open spec fn bit_is_set(m: u64, i: u64) -> bool {
    (m >> i) & 1u64 == 1u64
}

/// Whether `(x, y)` lies inside a block.
pub open spec fn in_block(x: int, y: int) -> bool {
    0 <= x < 8 && 0 <= y < 8
}

/// The live cells of a block whose backing word is `m`.
pub open spec fn live_cells_of(m: u64) -> Set<(int, int)> {
    Set::new(|p: (int, int)| in_block(p.0, p.1) && bit_is_set(m, bit_index(p.0, p.1) as u64))
}

/// The cell set `s` with `(x, y)` made live or dead.
pub open spec fn with_cell(s: Set<(int, int)>, x: int, y: int, val: bool) -> Set<(int, int)> {
    if val {
        s.insert((x, y))
    } else {
        s.remove((x, y))
    }
}

/// Writing a cell of a block and reading it back gives the value written,
/// whatever the other cells held; every other cell keeps its state.
pub proof fn lemma_set_then_get(s: Set<(int, int)>, x: int, y: int, v: bool)
    requires
        in_block(x, y),
    ensures
        with_cell(s, x, y, v).contains((x, y)) == v,
        forall|i: int, j: int|
            (i != x || j != y) ==> #[trigger] with_cell(s, x, y, v).contains((i, j)) == s.contains(
                (i, j),
            ),
{
}

proof fn lemma_mask_test(m: u64, i: u64)
    requires
        i < 64,
    ensures
        (m & (1u64 << i) != 0) == bit_is_set(m, i),
{
    assert((m & (1u64 << i) != 0) == ((m >> i) & 1u64 == 1u64)) by (bit_vector)
        requires
            i < 64,
    ;
}

proof fn lemma_set_bit(m: u64, i: u64, j: u64)
    requires
        i < 64,
        j < 64,
    ensures
        bit_is_set(m | (1u64 << i), j) == (j == i || bit_is_set(m, j)),
        bit_is_set(m & !(1u64 << i), j) == (j != i && bit_is_set(m, j)),
{
    assert(((m | (1u64 << i)) >> j) & 1u64 == 1u64 <==> (j == i || (m >> j) & 1u64 == 1u64))
        by (bit_vector)
        requires
            i < 64,
            j < 64,
    ;
    assert(((m & !(1u64 << i)) >> j) & 1u64 == 1u64 <==> (j != i && (m >> j) & 1u64 == 1u64))
        by (bit_vector)
        requires
            i < 64,
            j < 64,
    ;
}

/// An 8×8 block of cells; cell `(x, y)` is bit `(7 - x) + (7 - y) * 8` of `m`.
#[derive(Clone, Copy)]
pub struct Matrix {
    m: u64,
}

impl View for Matrix {
    type V = Set<(int, int)>;

    /// The live cells, all inside `[0, 8) × [0, 8)`.
    open spec fn view(&self) -> Set<(int, int)> {
        live_cells_of(self.bits())
    }
}

impl Matrix {
    /// The backing word.
    pub closed spec fn bits(&self) -> u64 {
        self.m
    }

    /// A block whose backing word is `initial`.
    pub fn new(initial: u64) -> (r: Matrix)
        ensures
            r.bits() == initial,
            initial == 0 ==> r@ == Set::<(int, int)>::empty(),
    {
        proof {
            if initial == 0 {
                assert forall|i: u64| !bit_is_set(0, i) by {
                    assert((0u64 >> i) & 1u64 != 1u64) by (bit_vector);
                }
                assert(live_cells_of(0) =~= Set::<(int, int)>::empty());
            }
        }
        Matrix { m: initial }
    }

    /// Whether cell `(x, y)` is live.
    pub fn get(&self, x: i32, y: i32) -> (r: bool)
        requires
            in_block(x as int, y as int),
        ensures
            r == self@.contains((x as int, y as int)),
    {
        let shift: u64 = ((7 - x) + (7 - y) * 8) as u64;
        proof {
            lemma_mask_test(self.m, shift);
        }
        self.m & (1u64 << shift) != 0
    }

    /// Makes cell `(x, y)` live when `val` holds and dead otherwise; the
    /// other cells keep their state.
    pub fn set(&mut self, x: i32, y: i32, val: bool)
        requires
            in_block(x as int, y as int),
        ensures
            final(self)@ == with_cell(old(self)@, x as int, y as int, val),
    {
        let shift: u64 = ((7 - x) + (7 - y) * 8) as u64;
        let mask: u64 = 1u64 << shift;
        let ghost before = self.m;
        if val {
            self.m = self.m | mask;
        } else {
            self.m = self.m & !mask;
        }
        proof {
            assert forall|p: (int, int)| #[trigger] self@.contains(p) == with_cell(
                old(self)@,
                x as int,
                y as int,
                val,
            ).contains(p) by {
                if in_block(p.0, p.1) {
                    lemma_set_bit(before, shift, bit_index(p.0, p.1) as u64);
                }
            }
            assert(self@ =~= with_cell(old(self)@, x as int, y as int, val));
        }
    }
}

} // verus!
