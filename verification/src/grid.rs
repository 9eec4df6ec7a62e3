//! The grid: which cell holds what.

use crate::coord::Coord;
use vstd::arithmetic::div_mod::{lemma_fundamental_div_mod, lemma_fundamental_div_mod_converse};
use vstd::prelude::*;

verus! {

/// What a cell of the grid holds.
#[derive(Clone, Copy, Debug, PartialEq, Eq, Structural, Hash)]
pub enum CellType {
    Empty,
    Organism,
    Consumable,
}

/// How many of the first `n` cells hold `kind`.
pub open spec fn count_upto(cells: Seq<CellType>, n: int, kind: CellType) -> nat
    decreases n,
{
    if n <= 0 {
        0
    } else {
        let here: nat = if cells[n - 1] == kind {
            1
        } else {
            0
        };
        count_upto(cells, n - 1, kind) + here
    }
}

/// A grid as a mathematical value: its extent and its cells row by row,
/// the row `y == 0` first.
pub struct GridView {
    pub width: nat,
    pub height: nat,
    pub cells: Seq<CellType>,
}

impl GridView {
    /// Every cell of the extent is there, and the extent fits the machine.
    pub open spec fn wf(self) -> bool {
        &&& self.cells.len() == self.width * self.height
        &&& self.width <= usize::MAX
        &&& self.height <= usize::MAX
        &&& self.cells.len() <= usize::MAX
    }

    /// Whether `c` is a cell of the grid.
    pub open spec fn within(self, c: Coord<usize>) -> bool {
        c.within(self.width as int, self.height as int)
    }

    /// The place of the cell `c` in the row-by-row order.
    pub open spec fn index_of(self, c: Coord<usize>) -> int {
        c.y * self.width + c.x
    }

    /// The cell at place `i` of the row-by-row order.
    pub open spec fn coord_of(self, i: int) -> Coord<usize> {
        Coord { x: (i % (self.width as int)) as usize, y: (i / (self.width as int)) as usize }
    }

    /// What the cell `c` holds.
    pub open spec fn at(self, c: Coord<usize>) -> CellType {
        self.cells[self.index_of(c)]
    }

    /// The grid with `kind` in the cell `c` and every other cell unchanged.
    pub open spec fn put(self, c: Coord<usize>, kind: CellType) -> GridView {
        GridView { cells: self.cells.update(self.index_of(c), kind), ..self }
    }

    /// How many cells hold `kind`.
    pub open spec fn count(self, kind: CellType) -> nat {
        count_upto(self.cells, self.cells.len() as int, kind)
    }

    /// The cells among the first `n` that hold `kind`, in row-by-row order.
    pub open spec fn coords_upto(self, n: int, kind: CellType) -> Seq<Coord<usize>>
        decreases n,
    {
        if n <= 0 {
            Seq::empty()
        } else if self.cells[n - 1] == kind {
            self.coords_upto(n - 1, kind).push(self.coord_of(n - 1))
        } else {
            self.coords_upto(n - 1, kind)
        }
    }

    /// The cells that hold `kind`, in row-by-row order.
    pub open spec fn coords_of(self, kind: CellType) -> Seq<Coord<usize>> {
        self.coords_upto(self.cells.len() as int, kind)
    }

    /// The grid of the given extent with every cell empty.
    pub open spec fn blank(width: nat, height: nat) -> GridView {
        GridView { width, height, cells: Seq::new(width * height, |i: int| CellType::Empty) }
    }
}

/// In a grid of width `w` and height `h` the cell `(x, y)` has the place
/// `y * w + x`, which is below `w * h` and determines `x` and `y`.
pub proof fn lemma_cell_index(x: int, y: int, w: int, h: int)
    requires
        0 <= x < w,
        0 <= y < h,
    ensures
        0 <= y * w + x < w * h,
        (y * w + x) % w == x,
        (y * w + x) / w == y,
{
    assert(0 <= y * w && y * w + w <= w * h) by (nonlinear_arith)
        requires
            0 <= y < h,
            0 < w,
    ;
    lemma_fundamental_div_mod_converse(y * w + x, w, y, x);
}

/// A place below `w * h` belongs to a cell of the grid.
pub proof fn lemma_place_coord(i: int, w: int, h: int)
    requires
        0 <= i < w * h,
        0 <= w,
        0 <= h,
    ensures
        0 < w,
        0 <= i % w < w,
        0 <= i / w < h,
        (i / w) * w + i % w == i,
{
    assert(0 < w) by (nonlinear_arith)
        requires
            0 <= i < w * h,
            0 <= w,
            0 <= h,
    ;
    lemma_fundamental_div_mod(i, w);
    let q: int = i / w;
    let r: int = i % w;
    assert(0 <= q < h && q * w + r == i) by (nonlinear_arith)
        requires
            i == w * q + r,
            0 <= r < w,
            0 <= i < w * h,
    ;
}

/// Going from a cell to its place and back gives the cell, and the other way
/// round.
pub proof fn lemma_index_coord(g: GridView, c: Coord<usize>)
    requires
        g.wf(),
        g.within(c),
    ensures
        0 <= g.index_of(c) < g.cells.len(),
        g.coord_of(g.index_of(c)) == c,
{
    lemma_cell_index(c.x as int, c.y as int, g.width as int, g.height as int);
}

/// The cell at a place of the grid lies within it and has that place.
pub proof fn lemma_coord_index(g: GridView, i: int)
    requires
        g.wf(),
        0 <= i < g.cells.len(),
    ensures
        g.within(g.coord_of(i)),
        g.index_of(g.coord_of(i)) == i,
{
    lemma_place_coord(i, g.width as int, g.height as int);
}

/// Two cells of the grid with the same place are the same cell.
pub proof fn lemma_index_injective(g: GridView, c: Coord<usize>, d: Coord<usize>)
    requires
        g.wf(),
        g.within(c),
        g.within(d),
        g.index_of(c) == g.index_of(d),
    ensures
        c == d,
{
    lemma_index_coord(g, c);
    lemma_index_coord(g, d);
}

/// Writing a cell changes that cell and no other.
pub proof fn lemma_put_at(g: GridView, c: Coord<usize>, kind: CellType, d: Coord<usize>)
    requires
        g.wf(),
        g.within(c),
        g.within(d),
    ensures
        g.put(c, kind).wf(),
        g.put(c, kind).within(d),
        g.put(c, kind).at(d) == if d == c {
            kind
        } else {
            g.at(d)
        },
{
    lemma_index_coord(g, c);
    lemma_index_coord(g, d);
    if d != c {
        if g.index_of(c) == g.index_of(d) {
            lemma_index_injective(g, c, d);
        }
    }
}

/// Writing one cell changes a count by at most one.
pub proof fn lemma_count_update(
    cells: Seq<CellType>,
    i: int,
    value: CellType,
    n: int,
    kind: CellType,
)
    requires
        0 <= i < cells.len(),
        0 <= n <= cells.len(),
    ensures
        count_upto(cells.update(i, value), n, kind) + (if i < n && cells[i] == kind {
            1int
        } else {
            0int
        }) == count_upto(cells, n, kind) + (if i < n && value == kind {
            1int
        } else {
            0int
        }),
    decreases n,
{
    if n > 0 {
        lemma_count_update(cells, i, value, n - 1, kind);
    }
}

/// A count is at most the number of cells counted.
pub proof fn lemma_count_bound(cells: Seq<CellType>, n: int, kind: CellType)
    requires
        0 <= n,
    ensures
        count_upto(cells, n, kind) <= n,
    decreases n,
{
    if n > 0 {
        lemma_count_bound(cells, n - 1, kind);
    }
}

/// Where one of the first `n` cells holds `kind`, the count is positive.
pub proof fn lemma_count_positive(cells: Seq<CellType>, n: int, i: int, kind: CellType)
    requires
        0 <= i < n,
        cells[i] == kind,
    ensures
        count_upto(cells, n, kind) >= 1,
    decreases n,
{
    if i < n - 1 {
        lemma_count_positive(cells, n - 1, i, kind);
    }
}

/// How counts change when a cell of the grid is written.
pub proof fn lemma_put_count(g: GridView, c: Coord<usize>, value: CellType, kind: CellType)
    requires
        g.wf(),
        g.within(c),
    ensures
        g.put(c, value).count(kind) + (if g.at(c) == kind {
            1int
        } else {
            0int
        }) == g.count(kind) + (if value == kind {
            1int
        } else {
            0int
        }),
        g.count(kind) <= g.cells.len(),
        g.at(c) == kind ==> g.count(kind) >= 1,
{
    lemma_index_coord(g, c);
    lemma_count_update(g.cells, g.index_of(c), value, g.cells.len() as int, kind);
    lemma_count_bound(g.cells, g.cells.len() as int, kind);
    if g.at(c) == kind {
        lemma_count_positive(g.cells, g.cells.len() as int, g.index_of(c), kind);
    }
}

/// The list of the cells that hold `kind` among the first `n`: it is as long as
/// the count says, each entry lies within the grid at a place below `n` and
/// holds `kind`, and the places grow along the list.
pub proof fn lemma_coords_upto(g: GridView, n: int, kind: CellType)
    requires
        g.wf(),
        0 <= n <= g.cells.len(),
    ensures
        g.coords_upto(n, kind).len() == count_upto(g.cells, n, kind),
        forall|j: int|
            0 <= j < g.coords_upto(n, kind).len() ==> {
                let c = #[trigger] g.coords_upto(n, kind)[j];
                g.within(c) && g.at(c) == kind && g.index_of(c) < n
            },
        forall|j: int, k: int|
            0 <= j < k < g.coords_upto(n, kind).len() ==> g.index_of(
                #[trigger] g.coords_upto(n, kind)[j],
            ) < g.index_of(#[trigger] g.coords_upto(n, kind)[k]),
    decreases n,
{
    if n > 0 {
        lemma_coords_upto(g, n - 1, kind);
        lemma_coord_index(g, n - 1);
    }
}

/// Every cell of the grid that holds `kind` is in the list of such cells.
pub proof fn lemma_coords_complete(g: GridView, n: int, kind: CellType, c: Coord<usize>)
    requires
        g.wf(),
        0 <= n <= g.cells.len(),
        g.within(c),
        g.index_of(c) < n,
        g.at(c) == kind,
    ensures
        g.coords_upto(n, kind).contains(c),
    decreases n,
{
    lemma_index_coord(g, c);
    let prev = g.coords_upto(n - 1, kind);
    if g.index_of(c) == n - 1 {
        assert(g.coords_upto(n, kind) == prev.push(c));
        assert(prev.push(c)[prev.len() as int] == c);
    } else {
        lemma_coords_complete(g, n - 1, kind, c);
        let j = choose|j: int| 0 <= j < prev.len() && prev[j] == c;
        if g.cells[n - 1] == kind {
            assert(g.coords_upto(n, kind)[j] == c);
        }
    }
}

/// The list of the cells that hold `kind` names each such cell once, and
/// nothing else.
pub proof fn lemma_coords_of(g: GridView, kind: CellType)
    requires
        g.wf(),
    ensures
        g.coords_of(kind).len() == g.count(kind),
        forall|j: int|
            0 <= j < g.coords_of(kind).len() ==> g.within(#[trigger] g.coords_of(kind)[j]) && g.at(
                g.coords_of(kind)[j],
            ) == kind,
        forall|j: int, k: int|
            0 <= j < g.coords_of(kind).len() && 0 <= k < g.coords_of(kind).len() && j != k
                ==> #[trigger] g.coords_of(kind)[j] != #[trigger] g.coords_of(kind)[k],
        forall|c: Coord<usize>|
            g.within(c) && g.at(c) == kind ==> #[trigger] g.coords_of(kind).contains(c),
{
    let n: int = g.cells.len() as int;
    lemma_coords_upto(g, n, kind);
    let cs = g.coords_of(kind);
    assert forall|j: int, k: int| 0 <= j < cs.len() && 0 <= k < cs.len() && j != k implies cs[j]
        != cs[k] by {
        if j < k {
            assert(g.index_of(cs[j]) < g.index_of(cs[k]));
        } else {
            assert(g.index_of(cs[k]) < g.index_of(cs[j]));
        }
    }
    assert forall|c: Coord<usize>| g.within(c) && g.at(c) == kind implies #[trigger] cs.contains(
        c,
    ) by {
        lemma_index_coord(g, c);
        lemma_coords_complete(g, n, kind, c);
    }
}

/// The grid of the simulation: a dense array of cell states.
#[derive(Clone, Debug)]
pub struct Grid {
    width: usize,
    height: usize,
    cells: Vec<CellType>,
}

impl View for Grid {
    type V = GridView;

    closed spec fn view(&self) -> GridView {
        GridView { width: self.width as nat, height: self.height as nat, cells: self.cells@ }
    }
}

impl Grid {
    /// Every cell of the extent is there.
    pub open spec fn wf(&self) -> bool {
        self@.wf()
    }

    /// An empty grid of the given extent.
    pub fn new(width: usize, height: usize) -> (grid: Grid)
        requires
            width * height <= usize::MAX,
        ensures
            grid.wf(),
            grid@ == GridView::blank(width as nat, height as nat),
    {
        let total: usize = width * height;
        let mut cells: Vec<CellType> = Vec::new();
        let mut i: usize = 0;
        while i < total
            invariant
                i <= total,
                cells@.len() == i,
                forall|j: int| 0 <= j < i ==> cells@[j] == CellType::Empty,
            decreases total - i,
        {
            cells.push(CellType::Empty);
            i = i + 1;
        }
        assert(cells@ =~= Seq::new((width * height) as nat, |i: int| CellType::Empty));
        Grid { width, height, cells }
    }

    /// The number of columns.
    pub fn width(&self) -> (w: usize)
        ensures
            w == self@.width,
    {
        self.width
    }

    /// The number of rows.
    pub fn height(&self) -> (h: usize)
        ensures
            h == self@.height,
    {
        self.height
    }

    /// Whether `coord` is a cell of the grid.
    pub fn in_bounds(&self, coord: Coord<usize>) -> (inside: bool)
        ensures
            inside == self@.within(coord),
    {
        coord.x < self.width && coord.y < self.height
    }

    /// What the cell `coord` holds.
    pub fn get(&self, coord: Coord<usize>) -> (kind: CellType)
        requires
            self.wf(),
            self@.within(coord),
        ensures
            kind == self@.at(coord),
    {
        proof {
            lemma_index_coord(self@, coord);
        }
        self.cells[coord.y * self.width + coord.x]
    }

    /// Writes `kind` into the cell `coord`.
    pub fn set(&mut self, coord: Coord<usize>, kind: CellType)
        requires
            old(self).wf(),
            old(self)@.within(coord),
        ensures
            final(self).wf(),
            final(self)@ == old(self)@.put(coord, kind),
    {
        proof {
            lemma_index_coord(self@, coord);
        }
        let i: usize = coord.y * self.width + coord.x;
        self.cells.set(i, kind);
    }

    /// How many cells hold `kind`.
    pub fn count(&self, kind: CellType) -> (n: usize)
        requires
            self.wf(),
        ensures
            n == self@.count(kind),
    {
        let mut n: usize = 0;
        let mut i: usize = 0;
        while i < self.cells.len()
            invariant
                i <= self.cells@.len(),
                n == count_upto(self.cells@, i as int, kind),
                n <= i,
            decreases self.cells@.len() - i,
        {
            if self.cells[i] == kind {
                n = n + 1;
            }
            i = i + 1;
        }
        n
    }

    /// The cells that hold `kind`, row by row from the row `y == 0`, each row
    /// from `x == 0`.
    pub fn get_cell_coords(&self, kind: CellType) -> (coords: Vec<Coord<usize>>)
        requires
            self.wf(),
        ensures
            coords@ == self@.coords_of(kind),
            coords@.len() == self@.count(kind),
            forall|j: int|
                0 <= j < coords@.len() ==> self@.within(#[trigger] coords@[j]) && self@.at(
                    coords@[j],
                ) == kind,
            forall|j: int, k: int|
                0 <= j < coords@.len() && 0 <= k < coords@.len() && j != k ==> #[trigger] coords@[j]
                    != #[trigger] coords@[k],
            forall|c: Coord<usize>|
                self@.within(c) && self@.at(c) == kind ==> #[trigger] coords@.contains(c),
    {
        let mut coords: Vec<Coord<usize>> = Vec::new();
        let mut i: usize = 0;
        let mut x: usize = 0;
        let mut y: usize = 0;
        assert(self.width == 0 ==> self.width * self.height == 0) by (nonlinear_arith);
        while i < self.cells.len()
            invariant
                self.wf(),
                i <= self.cells@.len(),
                i == y * self.width + x,
                x < self.width || i == self.cells@.len(),
                coords@ == self@.coords_upto(i as int, kind),
            decreases self.cells@.len() - i,
        {
            proof {
                lemma_place_coord(i as int, self.width as int, self.height as int);
                lemma_fundamental_div_mod_converse(i as int, self.width as int, y as int, x as int);
            }
            if self.cells[i] == kind {
                coords.push(Coord { x, y });
            }
            i = i + 1;
            x = x + 1;
            if x == self.width {
                assert((y + 1) * self.width + 0 == y * self.width + self.width)
                    by (nonlinear_arith);
                x = 0;
                y = y + 1;
            }
        }
        proof {
            lemma_coords_of(self@, kind);
        }
        coords
    }
}

} // verus!
