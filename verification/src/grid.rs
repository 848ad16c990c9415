//! A dense 2D grid of marker sets with a per-marker reverse index.
//!
//! Cells are addressed by the linear offset `x + y * width`. For every
//! marker kind the grid also keeps the ordered list of offsets currently
//! holding that marker; the bidirectional consistency of cell contents and
//! reverse index is the grid's central invariant.

use vstd::prelude::*;

use crate::interpreter::Move;
use crate::square::LayeredSquare;
use crate::square::MARKER_COUNT;
use crate::square::Square;
use crate::square::marker_index_spec;

verus! {

/// Mathematical model of a grid: dimensions, per-cell marker index sets,
/// and the ordered reverse-index lists.
#[verifier::ext_equal]
pub ghost struct GridModel {
    pub width: int,
    pub height: int,
    pub cells: Seq<Set<int>>,
    pub tracking: Seq<Seq<int>>,
}

/// A position in 2D coordinates, `(0, 0)` being the top left corner.
pub type Position = (usize, usize);

/// The grid: width, height, a dense array of squares indexed by linear
/// offset, and one reverse-index list per marker kind.
#[derive(Debug)]
pub struct Grid {
    width: usize,
    height: usize,
    elems: Vec<Square>,
    tracking: Vec<Vec<usize>>,
}

impl View for Grid {
    type V = GridModel;

    closed spec fn view(&self) -> GridModel {
        GridModel {
            width: self.width as int,
            height: self.height as int,
            cells: Seq::new(self.elems@.len(), |i: int| self.elems@[i]@),
            tracking: Seq::new(
                self.tracking@.len(),
                |i: int| self.tracking@[i]@.map_values(|x: usize| x as int),
            ),
        }
    }
}

/// Well-formedness of a grid model: dimensions are positive and addressable,
/// the cell array is dense, reverse-index entries are in-range and
/// duplicate-free, cells hold only valid marker indices, and an offset is
/// listed for a marker exactly when the marker lies in that cell.
pub open spec fn grid_wf(g: GridModel) -> bool {
    &&& 1 <= g.width
    &&& 1 <= g.height
    &&& g.width * g.height <= usize::MAX
    &&& g.cells.len() == g.width * g.height
    &&& g.tracking.len() == MARKER_COUNT
    &&& forall|k: int, j: int|
        0 <= k < MARKER_COUNT && 0 <= j < g.tracking[k].len() ==> 0 <= #[trigger] g.tracking[k][j]
            < g.cells.len()
    &&& forall|k: int, o: int|
        0 <= k < MARKER_COUNT && 0 <= o < g.cells.len() ==> (#[trigger] g.tracking[k].contains(o)
            <==> g.cells[o].contains(k))
    &&& forall|k: int, j1: int, j2: int|
        0 <= k < MARKER_COUNT && 0 <= j1 < j2 < g.tracking[k].len() ==> #[trigger] g.tracking[k][j1]
            != #[trigger] g.tracking[k][j2]
    &&& forall|o: int, k: int|
        0 <= o < g.cells.len() && #[trigger] g.cells[o].contains(k) ==> 0 <= k < MARKER_COUNT
}

/// The neighbouring offset of `pos` one step in direction `m`, absent
/// exactly at a grid edge in that direction (no wraparound).
pub open spec fn spec_neighbor(w: int, h: int, pos: int, m: Move) -> Option<int> {
    if !(1 <= w && 1 <= h && 0 <= pos < w * h) {
        None
    } else {
        match m {
            Move::Left => if pos % w > 0 {
                Some(pos - 1)
            } else {
                None
            },
            Move::Right => if pos % w < w - 1 {
                Some(pos + 1)
            } else {
                None
            },
            Move::Up => if pos / w > 0 {
                Some(pos - w)
            } else {
                None
            },
            Move::Down => if pos / w < h - 1 {
                Some(pos + w)
            } else {
                None
            },
        }
    }
}

/// Remaining travel from `pos` towards the grid edge in direction `m`;
/// strictly decreases along a push chain and bounds its recursion.
pub open spec fn spec_travel(w: int, h: int, pos: int, m: Move) -> int {
    match m {
        Move::Left => pos,
        Move::Up => pos,
        Move::Right => w * h - pos,
        Move::Down => w * h - pos,
    }
}

/// A step inside the grid lands in range and strictly shrinks the
/// remaining travel in its direction.
pub proof fn lemma_neighbor_step(w: int, h: int, pos: int, m: Move, dest: int)
    requires
        spec_neighbor(w, h, pos, m) == Some(dest),
    ensures
        1 <= w && 1 <= h && 0 <= pos < w * h,
        0 <= dest < w * h,
        0 <= spec_travel(w, h, dest, m) < spec_travel(w, h, pos, m),
{
    vstd::arithmetic::div_mod::lemma_fundamental_div_mod(pos, w);
    let q = pos / w;
    let r = pos % w;
    assert(pos == w * q + r);
    assert(0 <= r < w) by {
        vstd::arithmetic::div_mod::lemma_mod_bound(pos, w);
    }
    assert(0 <= q < h) by (nonlinear_arith)
        requires
            pos == w * q + r,
            0 <= r < w,
            0 <= pos < w * h,
            1 <= w,
    ;
    match m {
        Move::Left => {
        },
        Move::Right => {
            assert(pos + 1 < w * h) by (nonlinear_arith)
                requires
                    pos == w * q + r,
                    0 <= r < w - 1,
                    0 <= q < h,
                    1 <= w,
            ;
        },
        Move::Up => {
            assert(w <= pos) by (nonlinear_arith)
                requires
                    pos == w * q + r,
                    0 <= r,
                    1 <= q,
                    1 <= w,
            ;
        },
        Move::Down => {
            assert(pos + w < w * h) by (nonlinear_arith)
                requires
                    pos == w * q + r,
                    0 <= r < w,
                    0 <= q < h - 1,
                    1 <= w,
            ;
        },
    }
}

/// The grid `g` with marker `k` added at offset `o`: both the cell's
/// contents and the marker's reverse-index list are updated together; a
/// no-op when the marker already lies there.
pub open spec fn spec_grid_add(g: GridModel, k: int, o: int) -> GridModel {
    if g.cells[o].contains(k) {
        g
    } else {
        GridModel {
            cells: g.cells.update(o, g.cells[o].insert(k)),
            tracking: g.tracking.update(k, g.tracking[k].push(o)),
            ..g
        }
    }
}

/// The grid `g` with marker `k` removed at offset `o`: the cell loses the
/// marker and exactly the first occurrence of `o` leaves the marker's
/// reverse-index list; a no-op when the marker is not there.
pub open spec fn spec_grid_remove(g: GridModel, k: int, o: int) -> GridModel {
    if g.cells[o].contains(k) {
        GridModel {
            cells: g.cells.update(o, g.cells[o].remove(k)),
            tracking: g.tracking.update(k, g.tracking[k].remove_value(o)),
            ..g
        }
    } else {
        g
    }
}

/// The reverse index lists an offset for a marker exactly when the cell at
/// that offset holds the marker.
pub proof fn lemma_tracking_iff(g: GridModel, k: int, o: int)
    requires
        grid_wf(g),
        0 <= k < MARKER_COUNT,
        0 <= o < g.cells.len(),
    ensures
        g.tracking[k].contains(o) <==> g.cells[o].contains(k),
{
}

impl Grid {
    /// Well-formedness of this grid.
    pub open spec fn wf(self) -> bool {
        grid_wf(self@)
    }

    /// Number of cells.
    pub open spec fn size_spec(self) -> int {
        self@.cells.len() as int
    }

    /// Creates a grid with all cells empty and all reverse-index lists
    /// empty.
    pub fn new(width: usize, height: usize) -> (r: Grid)
        requires
            1 <= width,
            1 <= height,
            width * height <= usize::MAX,
        ensures
            r.wf(),
            r@.width == width,
            r@.height == height,
            forall|o: int, k: int| 0 <= o < r@.cells.len() ==> !(#[trigger] r@.cells[o].contains(k)),
            forall|k: int| 0 <= k < MARKER_COUNT ==> #[trigger] r@.tracking[k].len() == 0,
    {
        let size = width * height;
        let mut elems: Vec<Square> = Vec::new();
        let mut i: usize = 0;
        while i < size
            invariant
                i <= size,
                elems@.len() == i,
                forall|o: int| 0 <= o < i ==> #[trigger] elems@[o]@ == Set::<int>::empty(),
            decreases size - i,
        {
            elems.push(Square::new());
            i = i + 1;
        }
        let mut tracking: Vec<Vec<usize>> = Vec::new();
        let mut k: usize = 0;
        while k < MARKER_COUNT
            invariant
                k <= MARKER_COUNT,
                tracking@.len() == k,
                forall|j: int| 0 <= j < k ==> #[trigger] tracking@[j]@.len() == 0,
            decreases MARKER_COUNT - k,
        {
            tracking.push(Vec::new());
            k = k + 1;
        }
        let r = Grid { width, height, elems, tracking };
        proof {
            assert forall|o: int, k2: int|
                0 <= o < r@.cells.len() implies !(#[trigger] r@.cells[o].contains(k2)) by {
                assert(r@.cells[o] == elems@[o]@);
            }
        }
        r
    }

    /// Offset one step left of `elem`, absent at the left edge.
    pub fn left(&self, elem: usize) -> (r: Option<usize>)
        requires
            self.wf(),
            elem < self@.cells.len(),
        ensures
            match r {
                Some(d) => spec_neighbor(self@.width, self@.height, elem as int, Move::Left)
                    == Some(d as int),
                None => spec_neighbor(self@.width, self@.height, elem as int, Move::Left) is None,
            },
    {
        if elem % self.width > 0 {
            proof {
                lemma_neighbor_step(
                    self@.width,
                    self@.height,
                    elem as int,
                    Move::Left,
                    elem as int - 1,
                );
            }
            Some(elem - 1)
        } else {
            None
        }
    }

    /// Offset one step right of `elem`, absent at the right edge.
    pub fn right(&self, elem: usize) -> (r: Option<usize>)
        requires
            self.wf(),
            elem < self@.cells.len(),
        ensures
            match r {
                Some(d) => spec_neighbor(self@.width, self@.height, elem as int, Move::Right)
                    == Some(d as int),
                None => spec_neighbor(self@.width, self@.height, elem as int, Move::Right) is None,
            },
    {
        if elem % self.width < self.width - 1 {
            proof {
                lemma_neighbor_step(self@.width, self@.height, elem as int, Move::Right, elem + 1);
            }
            Some(elem + 1)
        } else {
            None
        }
    }

    /// Offset one step above `elem`, absent at the top edge.
    pub fn up(&self, elem: usize) -> (r: Option<usize>)
        requires
            self.wf(),
            elem < self@.cells.len(),
        ensures
            match r {
                Some(d) => spec_neighbor(self@.width, self@.height, elem as int, Move::Up)
                    == Some(d as int),
                None => spec_neighbor(self@.width, self@.height, elem as int, Move::Up) is None,
            },
    {
        if elem / self.width > 0 {
            proof {
                lemma_neighbor_step(
                    self@.width,
                    self@.height,
                    elem as int,
                    Move::Up,
                    elem - self@.width,
                );
            }
            Some(elem - self.width)
        } else {
            None
        }
    }

    /// Offset one step below `elem`, absent at the bottom edge.
    pub fn down(&self, elem: usize) -> (r: Option<usize>)
        requires
            self.wf(),
            elem < self@.cells.len(),
        ensures
            match r {
                Some(d) => spec_neighbor(self@.width, self@.height, elem as int, Move::Down)
                    == Some(d as int),
                None => spec_neighbor(self@.width, self@.height, elem as int, Move::Down) is None,
            },
    {
        if elem / self.width < self.height - 1 {
            proof {
                lemma_neighbor_step(
                    self@.width,
                    self@.height,
                    elem as int,
                    Move::Down,
                    elem + self@.width,
                );
            }
            Some(elem + self.width)
        } else {
            None
        }
    }

    /// The offset reached by applying move `m` to `elem`, absent exactly at
    /// the grid edge in that direction.
    pub fn apply_move(&self, elem: usize, m: Move) -> (r: Option<usize>)
        requires
            self.wf(),
            elem < self@.cells.len(),
        ensures
            match r {
                Some(d) => spec_neighbor(self@.width, self@.height, elem as int, m) == Some(
                    d as int,
                ),
                None => spec_neighbor(self@.width, self@.height, elem as int, m) is None,
            },
    {
        match m {
            Move::Left => self.left(elem),
            Move::Right => self.right(elem),
            Move::Up => self.up(elem),
            Move::Down => self.down(elem),
        }
    }

    /// Converts a 2D position into a linear offset.
    pub fn index(&self, pos: Position) -> (r: usize)
        requires
            self.wf(),
            pos.0 < self@.width,
            pos.1 < self@.height,
        ensures
            r == pos.0 + pos.1 * self@.width,
            r < self@.cells.len(),
    {
        proof {
            assert(pos.0 + pos.1 * self@.width < self@.width * self@.height) by (nonlinear_arith)
                requires
                    0 <= pos.0 < self@.width,
                    0 <= pos.1 < self@.height,
            ;
        }
        pos.0 + pos.1 * self.width
    }

    /// The marker set at offset `o`.
    pub fn cell(&self, o: usize) -> (r: Square)
        requires
            self.wf(),
            o < self@.cells.len(),
        ensures
            r@ == self@.cells[o as int],
    {
        self.elems[o]
    }

    /// The ordered list of offsets currently holding `marker`, reflecting
    /// the reverse index.
    pub fn tracked_offsets(&self, marker: LayeredSquare) -> (r: Vec<usize>)
        requires
            self.wf(),
        ensures
            r@.map_values(|x: usize| x as int) == self@.tracking[marker_index_spec(marker)],
    {
        let k = marker.index();
        let src = &self.tracking[k];
        let mut r: Vec<usize> = Vec::new();
        let mut i: usize = 0;
        while i < src.len()
            invariant
                i <= src@.len(),
                r@ == src@.subrange(0, i as int),
            decreases src@.len() - i,
        {
            r.push(src[i]);
            proof {
                assert(r@ =~= src@.subrange(0, i + 1 as int));
            }
            i = i + 1;
        }
        proof {
            assert(r@ =~= src@);
            assert(r@.map_values(|x: usize| x as int) =~= self@.tracking[marker_index_spec(
                marker,
            )]);
        }
        r
    }

    /// An independent copy of this grid, for the frozen pre-move snapshot.
    pub fn snapshot(&self) -> (r: Grid)
        ensures
            r@ == self@,
    {
        let mut elems: Vec<Square> = Vec::new();
        let mut i: usize = 0;
        while i < self.elems.len()
            invariant
                i <= self.elems@.len(),
                elems@ == self.elems@.subrange(0, i as int),
            decreases self.elems@.len() - i,
        {
            elems.push(self.elems[i]);
            proof {
                assert(elems@ =~= self.elems@.subrange(0, i + 1 as int));
            }
            i = i + 1;
        }
        let mut tracking: Vec<Vec<usize>> = Vec::new();
        let mut k: usize = 0;
        while k < self.tracking.len()
            invariant
                k <= self.tracking@.len(),
                tracking@.len() == k,
                forall|j: int| 0 <= j < k ==> #[trigger] tracking@[j]@ == self.tracking@[j]@,
            decreases self.tracking@.len() - k,
        {
            let src = &self.tracking[k];
            let mut inner: Vec<usize> = Vec::new();
            let mut i2: usize = 0;
            while i2 < src.len()
                invariant
                    i2 <= src@.len(),
                    inner@ == src@.subrange(0, i2 as int),
                decreases src@.len() - i2,
            {
                inner.push(src[i2]);
                proof {
                    assert(inner@ =~= src@.subrange(0, i2 + 1 as int));
                }
                i2 = i2 + 1;
            }
            proof {
                assert(inner@ =~= src@);
            }
            tracking.push(inner);
            k = k + 1;
        }
        proof {
            assert(elems@ =~= self.elems@);
        }
        let r = Grid { width: self.width, height: self.height, elems, tracking };
        proof {
            assert(r@.cells =~= self@.cells);
            assert(r@.tracking =~= self@.tracking);
            assert(r@ =~= self@);
        }
        r
    }

    /// Adds `marker` at offset `o`, updating the cell and the reverse index
    /// together; a no-op when the marker already lies there.
    pub fn add_marker(&mut self, marker: LayeredSquare, o: usize)
        requires
            old(self).wf(),
            o < old(self)@.cells.len(),
        ensures
            final(self).wf(),
            final(self)@ == spec_grid_add(old(self)@, marker_index_spec(marker), o as int),
    {
        let ghost g0 = self@;
        let ghost ki = marker_index_spec(marker);
        let k = marker.index();
        if self.elems[o].contains(marker) {
            return ;
        }
        self.elems[o].add_layer(marker);
        self.tracking[k].push(o);
        proof {
            let g1 = self@;
            assert(g1.cells =~= g0.cells.update(o as int, g0.cells[o as int].insert(ki)));
            assert(g1.tracking[ki] =~= g0.tracking[ki].push(o as int));
            assert(g1.tracking =~= g0.tracking.update(ki, g0.tracking[ki].push(o as int)));
            assert(g1 =~= spec_grid_add(g0, ki, o as int));
            lemma_grid_add_wf(g0, ki, o as int);
        }
    }

    /// Removes `marker` at offset `o`, updating the cell and the reverse
    /// index together; a no-op when the marker is not there.
    pub fn remove_marker(&mut self, marker: LayeredSquare, o: usize)
        requires
            old(self).wf(),
            o < old(self)@.cells.len(),
        ensures
            final(self).wf(),
            final(self)@ == spec_grid_remove(old(self)@, marker_index_spec(marker), o as int),
    {
        let ghost g0 = self@;
        let ghost ki = marker_index_spec(marker);
        let k = marker.index();
        if !self.elems[o].contains(marker) {
            return ;
        }
        self.elems[o].remove_layer(marker);
        // The invariant puts `o` in the reverse-index list; find and drop
        // its first (and, duplicates being excluded, only) occurrence.
        let list_len = self.tracking[k].len();
        let mut j: usize = 0;
        let ghost tr0 = g0.tracking[ki];
        while j < list_len && self.tracking[k][j] != o
            invariant
                j <= list_len,
                k as int == ki,
                list_len == self.tracking@[ki].len(),
                0 <= ki < MARKER_COUNT,
                self.tracking@.len() == MARKER_COUNT,
                tr0 == self.tracking@[ki]@.map_values(|x: usize| x as int),
                tr0.contains(o as int),
                forall|i: int| 0 <= i < j ==> tr0[i] != o as int,
            decreases list_len - j,
        {
            j = j + 1;
        }
        proof {
            if j >= list_len {
                let w = choose|i: int| 0 <= i < tr0.len() && tr0[i] == o as int;
                assert(tr0[w] != o as int);
                assert(false);
            }
            assert(tr0[j as int] == o as int);
        }
        let ghost inner0 = self.tracking@[ki]@;
        self.tracking[k].remove(j);
        proof {
            let g1 = self@;
            inner0.remove_ensures(j as int);
            tr0.remove_ensures(j as int);
            tr0.index_of_first_ensures(o as int);
            let fi = tr0.index_of_first(o as int).unwrap();
            assert(tr0[fi] == o as int);
            assert(fi == j as int) by {
                if fi < j {
                    assert(tr0[fi] != o as int);
                } else if fi > j {
                    assert(tr0[j as int] != o as int);
                }
            }
            assert(g1.cells =~= g0.cells.update(o as int, g0.cells[o as int].remove(ki)));
            assert(g1.tracking[ki] =~= tr0.remove(j as int));
            assert(g1.tracking =~= g0.tracking.update(ki, tr0.remove_value(o as int)));
            assert(g1 =~= spec_grid_remove(g0, ki, o as int));
            lemma_grid_remove_wf(g0, ki, o as int);
        }
    }
}

/// A sequence with one element pushed contains exactly its old elements and
/// the new one.
proof fn lemma_push_contains(s: Seq<int>, v: int, x: int)
    ensures
        s.push(v).contains(x) <==> (s.contains(x) || x == v),
{
    if s.contains(x) {
        let i = choose|i: int| 0 <= i < s.len() && s[i] == x;
        assert(s.push(v)[i] == x);
    }
    if x == v {
        assert(s.push(v)[s.len() as int] == x);
    }
    if s.push(v).contains(x) {
        let i = choose|i: int| 0 <= i < s.push(v).len() && s.push(v)[i] == x;
        if i < s.len() {
            assert(s[i] == x);
        }
    }
}

/// Adding a marker preserves grid well-formedness.
proof fn lemma_grid_add_wf(g: GridModel, k: int, o: int)
    requires
        grid_wf(g),
        0 <= k < MARKER_COUNT,
        0 <= o < g.cells.len(),
    ensures
        grid_wf(spec_grid_add(g, k, o)),
{
    if !g.cells[o].contains(k) {
        let g1 = spec_grid_add(g, k, o);
        assert forall|k2: int, o2: int|
            0 <= k2 < MARKER_COUNT && 0 <= o2 < g1.cells.len() implies (#[trigger] g1.tracking[
            k2].contains(o2) <==> g1.cells[o2].contains(k2)) by {
            lemma_push_contains(g.tracking[k], o, o2);
            assert(g.tracking[k2].contains(o2) <==> g.cells[o2].contains(k2));
        }
        assert forall|k2: int, j1: int, j2: int|
            0 <= k2 < MARKER_COUNT && 0 <= j1 < j2 < g1.tracking[k2].len() implies #[trigger] g1
            .tracking[k2][j1] != #[trigger] g1.tracking[k2][j2] by {
            if k2 == k && j2 == g.tracking[k].len() {
                assert(g1.tracking[k][j1] == g.tracking[k][j1]);
                assert(g.tracking[k].contains(g.tracking[k][j1]));
                assert(!g.tracking[k].contains(o));
            }
        }
    }
}

/// Removing a marker preserves grid well-formedness.
proof fn lemma_grid_remove_wf(g: GridModel, k: int, o: int)
    requires
        grid_wf(g),
        0 <= k < MARKER_COUNT,
        0 <= o < g.cells.len(),
    ensures
        grid_wf(spec_grid_remove(g, k, o)),
{
    if g.cells[o].contains(k) {
        let g1 = spec_grid_remove(g, k, o);
        let tr = g.tracking[k];
        tr.index_of_first_ensures(o);
        let fi = tr.index_of_first(o).unwrap();
        tr.remove_ensures(fi);
        let tr1 = tr.remove(fi);
        // Every entry of the shortened list is an entry of the old list,
        // away from the removed position.
        assert forall|j: int| 0 <= j < tr1.len() implies exists|i: int|
            0 <= i < tr.len() && i != fi && tr[i] == #[trigger] tr1[j] by {
            if j < fi {
                assert(tr[j] == tr1[j]);
            } else {
                assert(tr[j + 1] == tr1[j]);
            }
        }
        assert forall|k2: int, o2: int|
            0 <= k2 < MARKER_COUNT && 0 <= o2 < g1.cells.len() implies (#[trigger] g1.tracking[
            k2].contains(o2) <==> g1.cells[o2].contains(k2)) by {
            if k2 == k {
                if g1.tracking[k].contains(o2) {
                    let j = choose|j: int| 0 <= j < tr1.len() && tr1[j] == o2;
                    let i = choose|i: int| 0 <= i < tr.len() && i != fi && tr[i] == tr1[j];
                    assert(tr.contains(o2));
                    if o2 == o {
                        assert(tr[i] == tr[fi]);
                        assert(false);
                    }
                    assert(g.cells[o2].contains(k));
                } else {
                    if g1.cells[o2].contains(k) {
                        assert(o2 != o);
                        assert(g.cells[o2].contains(k));
                        assert(tr.contains(o2));
                        let i = choose|i: int| 0 <= i < tr.len() && tr[i] == o2;
                        assert(i != fi);
                        if i < fi {
                            assert(tr1[i] == o2);
                        } else {
                            assert(tr1[i - 1] == o2);
                        }
                        assert(tr1.contains(o2));
                        assert(false);
                    }
                }
            } else {
                assert(g.tracking[k2].contains(o2) <==> g.cells[o2].contains(k2));
            }
        }
        assert forall|k2: int, j1: int, j2: int|
            0 <= k2 < MARKER_COUNT && 0 <= j1 < j2 < g1.tracking[k2].len() implies #[trigger] g1
            .tracking[k2][j1] != #[trigger] g1.tracking[k2][j2] by {
            if k2 == k {
                let a1: int = if j1 < fi {
                    j1
                } else {
                    j1 + 1
                };
                let a2: int = if j2 < fi {
                    j2
                } else {
                    j2 + 1
                };
                assert(tr1[j1] == tr[a1]);
                assert(tr1[j2] == tr[a2]);
                assert(tr[a1] != tr[a2]);
            }
        }
        assert forall|k2: int, j: int|
            0 <= k2 < MARKER_COUNT && 0 <= j < g1.tracking[k2].len() implies 0 <= #[trigger] g1
            .tracking[k2][j] < g1.cells.len() by {
            if k2 == k {
                if j < fi {
                    assert(tr1[j] == tr[j]);
                } else {
                    assert(tr1[j] == tr[j + 1]);
                }
            }
        }
    }
}

} // verus!
