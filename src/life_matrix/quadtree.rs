//! A growable sparse grid: a quadtree whose leaves are 8×8 blocks.
use vstd::prelude::*;
use super::matrix::{with_cell, Matrix};

verus! {

/// Largest side a tree may reach; enough to hold every non-negative `i32`
/// coordinate.
pub const MAX_SIDE: i64 = 0x1_0000_0000;

/// Whether `w` is the side of a tree node: 16 times a power of two.
pub open spec fn valid_extent(w: int) -> bool
    decreases w,
{
    if w <= 16 {
        w == 16
    } else {
        w % 2 == 0 && valid_extent(w / 2)
    }
}

/// Whether `b` is `a` doubled zero or more times.
pub open spec fn doubled_from(a: int, b: int) -> bool
    decreases b,
{
    if b <= a || a <= 0 {
        b == a
    } else {
        b % 2 == 0 && doubled_from(a, b / 2)
    }
}

/// The cell set `s` after the writes `writes`, in order; each write is
/// `(x, y, value)`.
pub open spec fn replay(s: Set<(int, int)>, writes: Seq<(int, int, bool)>) -> Set<(int, int)>
    decreases writes.len(),
{
    if writes.len() == 0 {
        s
    } else {
        let w = writes.last();
        with_cell(replay(s, writes.drop_last()), w.0, w.1, w.2)
    }
}

/// After a sequence of writes, a cell holds the value of the last write to
/// it. Since `QuadTreeMatrix::set` changes the live cells as `with_cell`
/// says whether or not it grows the tree, growth loses no written cell.
pub proof fn lemma_last_write_wins(s: Set<(int, int)>, writes: Seq<(int, int, bool)>, k: int)
    requires
        0 <= k < writes.len(),
        forall|m: int|
            k < m < writes.len() ==> (#[trigger] writes[m].0 != writes[k].0 || writes[m].1
                != writes[k].1),
    ensures
        replay(s, writes).contains((writes[k].0, writes[k].1)) == writes[k].2,
    decreases writes.len(),
{
    let rest = writes.drop_last();
    if k < writes.len() - 1 {
        assert forall|m: int| k < m < rest.len() implies (#[trigger] rest[m].0 != rest[k].0
            || rest[m].1 != rest[k].1) by {
            assert(rest[m] == writes[m]);
        }
        lemma_last_write_wins(s, rest, k);
        assert(writes.last() == writes[writes.len() - 1]);
    }
}

/// A square region of cells with its origin at `(0, 0)`, split into four
/// quadrants. Cells outside `[0, width) × [0, height)` are dead. The tree
/// grows only toward positive coordinates; cells at negative coordinates
/// cannot be stored.
pub struct QuadTreeMatrix {
    width: i64,
    height: i64,
    top_left: Edge,
    top_right: Edge,
    bottom_left: Edge,
    bottom_right: Edge,
}

/// One quadrant of a node: a subtree, a block of cells, or nothing stored yet.
enum Edge {
    Child(Box<QuadTreeMatrix>),
    Leaf(Matrix),
    Empty,
}

impl Edge {
    /// Moves the quadrant out, leaving nothing stored in its place.
    fn take(e: &mut Edge) -> (r: Edge)
        ensures
            r == *old(e),
            *final(e) is Empty,
    {
        let mut r = Edge::Empty;
        std::mem::swap(&mut r, e);
        r
    }

    /// A quadrant of side `side`: a subtree of that side, or a block when
    /// the side is 8.
    closed spec fn wf(&self, side: int) -> bool
        decreases self,
    {
        match self {
            Edge::Child(c) => c.wf() && c.width == side,
            Edge::Leaf(_) => side == 8,
            Edge::Empty => true,
        }
    }

    /// Whether cell `(x, y)`, in the quadrant's own coordinates, is live.
    closed spec fn alive(&self, x: int, y: int) -> bool
        decreases self,
    {
        match self {
            Edge::Child(c) => c.alive(x, y),
            Edge::Leaf(b) => b@.contains((x, y)),
            Edge::Empty => false,
        }
    }

    fn get(&self, x: i64, y: i64, side: i64) -> (r: bool)
        requires
            self.wf(side as int),
            0 <= x < side,
            0 <= y < side,
        ensures
            r == self.alive(x as int, y as int),
        decreases self,
    {
        match self {
            Edge::Child(c) => c.get_at(x, y),
            Edge::Leaf(b) => b.get(x as i32, y as i32),
            Edge::Empty => false,
        }
    }

    /// This quadrant with cell `(x, y)` made live or dead, materialising
    /// storage first when nothing is stored yet.
    fn set(self, x: i64, y: i64, val: bool, side: i64) -> (r: Edge)
        requires
            self.wf(side as int),
            side == 8 || valid_extent(side as int),
            side <= MAX_SIDE / 2,
            0 <= x < side,
            0 <= y < side,
        ensures
            r.wf(side as int),
            forall|i: int, j: int|
                #[trigger] r.alive(i, j) == if i == x && j == y {
                    val
                } else {
                    self.alive(i, j)
                },
        decreases side, 1int,
    {
        match self {
            Edge::Child(c) => {
                let mut t = *c;
                let ghost before = t;
                t.set_at(x, y, val);
                let r = Edge::Child(Box::new(t));
                assert forall|i: int, j: int|
                    #[trigger] r.alive(i, j) == if i == x && j == y {
                        val
                    } else {
                        self.alive(i, j)
                    } by {
                    assert(r.alive(i, j) == t.alive(i, j));
                    assert(self.alive(i, j) == before.alive(i, j));
                }
                r
            },
            Edge::Leaf(b) => {
                let mut b = b;
                let ghost before = b;
                b.set(x as i32, y as i32, val);
                let r = Edge::Leaf(b);
                assert forall|i: int, j: int|
                    #[trigger] r.alive(i, j) == if i == x && j == y {
                        val
                    } else {
                        self.alive(i, j)
                    } by {
                    assert(r.alive(i, j) == b@.contains((i, j)));
                    assert(self.alive(i, j) == before@.contains((i, j)));
                }
                r
            },
            Edge::Empty => {
                if side == 8 {
                    let mut b = Matrix::new(0);
                    b.set(x as i32, y as i32, val);
                    let r = Edge::Leaf(b);
                    assert forall|i: int, j: int|
                        #[trigger] r.alive(i, j) == if i == x && j == y {
                            val
                        } else {
                            self.alive(i, j)
                        } by {
                        assert(r.alive(i, j) == b@.contains((i, j)));
                    }
                    r
                } else {
                    let mut c = QuadTreeMatrix::empty_node(side);
                    let ghost before = c;
                    c.set_at(x, y, val);
                    let r = Edge::Child(Box::new(c));
                    assert forall|i: int, j: int|
                        #[trigger] r.alive(i, j) == if i == x && j == y {
                            val
                        } else {
                            self.alive(i, j)
                        } by {
                        assert(r.alive(i, j) == c.alive(i, j));
                        assert(!before.alive(i, j));
                    }
                    r
                }
            },
        }
    }
}

impl View for QuadTreeMatrix {
    type V = Set<(int, int)>;

    /// The live cells, all inside `[0, side) × [0, side)`.
    open spec fn view(&self) -> Set<(int, int)> {
        Set::new(|p: (int, int)| self.alive(p.0, p.1))
    }
}

impl QuadTreeMatrix {
    /// Width and height are equal, 16 times a power of two and at most
    /// `MAX_SIDE`, and each quadrant is half as wide.
    pub closed spec fn wf(&self) -> bool
        decreases self,
    {
        &&& self.width == self.height
        &&& valid_extent(self.width as int)
        &&& self.width <= MAX_SIDE
        &&& self.top_left.wf(self.width / 2)
        &&& self.top_right.wf(self.width / 2)
        &&& self.bottom_left.wf(self.width / 2)
        &&& self.bottom_right.wf(self.width / 2)
    }

    /// Width (and height) of the region the tree covers.
    pub closed spec fn side(&self) -> int {
        self.width as int
    }

    /// Whether cell `(x, y)` is live; false outside the covered region.
    pub closed spec fn alive(&self, x: int, y: int) -> bool
        decreases self,
    {
        if !(0 <= x < self.width && 0 <= y < self.height) {
            false
        } else {
            let hw = self.width / 2;
            let hh = self.height / 2;
            if x < hw {
                if y < hh {
                    self.top_left.alive(x, y)
                } else {
                    self.bottom_left.alive(x, y - hh)
                }
            } else {
                if y < hh {
                    self.top_right.alive(x - hw, y)
                } else {
                    self.bottom_right.alive(x - hw, y - hh)
                }
            }
        }
    }

    /// An empty tree covering `[0, 16) × [0, 16)`, its four quadrants blocks.
    pub fn new() -> (r: QuadTreeMatrix)
        ensures
            r.wf(),
            r.side() == 16,
            r@ == Set::<(int, int)>::empty(),
    {
        let r = QuadTreeMatrix {
            width: 16,
            height: 16,
            top_left: Edge::Leaf(Matrix::new(0)),
            top_right: Edge::Leaf(Matrix::new(0)),
            bottom_left: Edge::Leaf(Matrix::new(0)),
            bottom_right: Edge::Leaf(Matrix::new(0)),
        };
        assert(r@ =~= Set::<(int, int)>::empty());
        r
    }

    /// A node of side `side` with nothing stored in it.
    fn empty_node(side: i64) -> (r: QuadTreeMatrix)
        requires
            valid_extent(side as int),
            side <= MAX_SIDE,
        ensures
            r.wf(),
            r.side() == side,
            forall|i: int, j: int| !#[trigger] r.alive(i, j),
    {
        QuadTreeMatrix {
            width: side,
            height: side,
            top_left: Edge::Empty,
            top_right: Edge::Empty,
            bottom_left: Edge::Empty,
            bottom_right: Edge::Empty,
        }
    }

    /// Whether cell `(x, y)` is live; false for any cell outside the
    /// covered region.
    pub fn get(&self, x: i32, y: i32) -> (r: bool)
        requires
            self.wf(),
        ensures
            r == self@.contains((x as int, y as int)),
            !(0 <= x < self.side() && 0 <= y < self.side()) ==> !r,
    {
        self.get_at(x as i64, y as i64)
    }

    fn get_at(&self, x: i64, y: i64) -> (r: bool)
        requires
            self.wf(),
        ensures
            r == self.alive(x as int, y as int),
        decreases self,
    {
        if x < 0 || x >= self.width || y < 0 || y >= self.height {
            return false;
        }
        let hw = self.width / 2;
        let hh = self.height / 2;
        if x < hw {
            if y < hh {
                self.top_left.get(x, y, hw)
            } else {
                self.bottom_left.get(x, y - hh, hw)
            }
        } else {
            if y < hh {
                self.top_right.get(x - hw, y, hw)
            } else {
                self.bottom_right.get(x - hw, y - hh, hw)
            }
        }
    }

    /// Makes cell `(x, y)` live when `val` holds and dead otherwise; the
    /// other cells keep their state. A cell beyond the covered region first
    /// grows the tree, doubling its side as often as needed.
    pub fn set(&mut self, x: i32, y: i32, val: bool)
        requires
            old(self).wf(),
            0 <= x,
            0 <= y,
        ensures
            final(self).wf(),
            final(self)@ == with_cell(old(self)@, x as int, y as int, val),
            old(self).side() <= final(self).side(),
            x < final(self).side(),
            y < final(self).side(),
            doubled_from(old(self).side(), final(self).side()),
            (x < old(self).side() && y < old(self).side()) ==> final(self).side() == old(
                self,
            ).side(),
            final(self).side() == old(self).side() || x >= final(self).side() / 2 || y
                >= final(self).side() / 2,
    {
        let xi = x as i64;
        let yi = y as i64;
        let ghost before = self@;
        while xi >= self.width || yi >= self.height
            invariant
                self.wf(),
                self@ == before,
                before == old(self)@,
                old(self).side() <= self.side(),
                doubled_from(old(self).side(), self.side()),
                self.side() == old(self).side() || self.side() / 2 >= old(self).side(),
                self.side() == old(self).side() || xi >= self.side() / 2 || yi >= self.side()
                    / 2,
                0 <= xi <= i32::MAX,
                0 <= yi <= i32::MAX,
            decreases MAX_SIDE - self.width,
        {
            self.grow();
        }
        self.set_at(xi, yi, val);
        proof {
            assert(self@ =~= with_cell(before, x as int, y as int, val));
        }
    }

    /// Moves every quadrant of this node into a new node of the same side,
    /// leaving this node's quadrants empty.
    fn create_standin(&mut self) -> (r: QuadTreeMatrix)
        ensures
            r == *old(self),
            final(self).width == old(self).width,
            final(self).height == old(self).height,
            final(self).top_left is Empty,
            final(self).top_right is Empty,
            final(self).bottom_left is Empty,
            final(self).bottom_right is Empty,
    {
        let mut standin = QuadTreeMatrix {
            width: self.width,
            height: self.height,
            top_left: Edge::Empty,
            top_right: Edge::Empty,
            bottom_left: Edge::Empty,
            bottom_right: Edge::Empty,
        };
        std::mem::swap(&mut standin.top_left, &mut self.top_left);
        std::mem::swap(&mut standin.top_right, &mut self.top_right);
        std::mem::swap(&mut standin.bottom_left, &mut self.bottom_left);
        std::mem::swap(&mut standin.bottom_right, &mut self.bottom_right);
        standin
    }

    /// Doubles the covered side; the old tree becomes the top-left quadrant.
    fn grow(&mut self)
        requires
            old(self).wf(),
            old(self).width <= MAX_SIDE / 2,
        ensures
            final(self).wf(),
            final(self).width == 2 * old(self).width,
            final(self)@ == old(self)@,
    {
        let top_left = self.create_standin();
        self.width = self.width * 2;
        self.height = self.height * 2;
        self.top_left = Edge::Child(Box::new(top_left));
        proof {
            assert(valid_extent(self.width as int));
            assert forall|i: int, j: int| #[trigger] self.alive(i, j) == top_left.alive(i, j) by {}
            assert(self@ =~= old(self)@);
        }
    }

    fn set_at(&mut self, x: i64, y: i64, val: bool)
        requires
            old(self).wf(),
            0 <= x < old(self).width,
            0 <= y < old(self).height,
        ensures
            final(self).wf(),
            final(self).width == old(self).width,
            forall|i: int, j: int|
                #[trigger] final(self).alive(i, j) == if i == x && j == y {
                    val
                } else {
                    old(self).alive(i, j)
                },
        decreases old(self).width, 0int,
    {
        let hw = self.width / 2;
        let hh = self.height / 2;
        let ghost before = *self;
        if x < hw {
            if y < hh {
                let edge = Edge::take(&mut self.top_left);
                self.top_left = edge.set(x, y, val, hw);
            } else {
                let edge = Edge::take(&mut self.bottom_left);
                self.bottom_left = edge.set(x, y - hh, val, hw);
            }
        } else {
            if y < hh {
                let edge = Edge::take(&mut self.top_right);
                self.top_right = edge.set(x - hw, y, val, hw);
            } else {
                let edge = Edge::take(&mut self.bottom_right);
                self.bottom_right = edge.set(x - hw, y - hh, val, hw);
            }
        }
        proof {
            assert forall|i: int, j: int|
                #[trigger] self.alive(i, j) == if i == x && j == y {
                    val
                } else {
                    before.alive(i, j)
                } by {
                if 0 <= i < self.width && 0 <= j < self.height {
                    if i < hw {
                        if j < hh {
                            assert(self.top_left.alive(i, j) == if i == x && j == y {
                                val
                            } else {
                                before.top_left.alive(i, j)
                            });
                        } else {
                            assert(self.bottom_left.alive(i, j - hh) == if i == x && j == y {
                                val
                            } else {
                                before.bottom_left.alive(i, j - hh)
                            });
                        }
                    } else {
                        if j < hh {
                            assert(self.top_right.alive(i - hw, j) == if i == x && j == y {
                                val
                            } else {
                                before.top_right.alive(i - hw, j)
                            });
                        } else {
                            assert(self.bottom_right.alive(i - hw, j - hh) == if i == x && j
                                == y {
                                val
                            } else {
                                before.bottom_right.alive(i - hw, j - hh)
                            });
                        }
                    }
                }
            }
        }
    }
}

} // verus!
