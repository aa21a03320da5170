//! The grid snapshot: a derived, read-only occupancy map of the field,
//! rebuilt from live agent state each tick.  It is used for rendering and
//! for the food-placement search.

use vstd::prelude::*;

use crate::base::PlayerIndex;
use crate::base::Vector2i;

verus! {

/// Which part of a snake occupies a cell.
#[derive(Debug, Clone, Copy, PartialEq, Eq, Structural)]
pub enum SnakeBodyPart {
    /// The snake's head.
    Head,
    /// An inner body cell.
    Body,
    /// The snake's tail.
    Tail,
}

/// Describes a cell that is occupied by a snake.
#[derive(Debug, Clone, Copy, PartialEq, Eq, Structural)]
pub struct SnakeRec {
    pub player_index: PlayerIndex,
    pub body_part: SnakeBodyPart,
}

/// Describes a cell that holds a pizza.
#[derive(Debug, Clone, Copy, PartialEq, Eq, Structural)]
pub struct PizzaRec {}

/// The contents of one cell of the map.
#[derive(Debug, Clone, Copy, PartialEq, Eq, Structural)]
pub enum GridCell {
    Empty,
    Snake(SnakeRec),
    Pizza(PizzaRec),
}

/// The cells a grid holds, as a map from coordinates to cell contents.
/// The domain is exactly the rectangle of the grid's dimensions.
pub uninterp spec fn grid_cells(g: Grid) -> Map<(int, int), GridCell>;

/// The dimensions a grid was created with.
pub uninterp spec fn grid_dim(g: Grid) -> (int, int);

/// A 2D array of cells.  The storage is an `ndarray` array, held behind a
/// trusted boundary; `grid_cells` and `grid_dim` name what it holds.
#[verifier::external_body]
pub struct Grid {
    cells: ndarray::Array2<GridCell>,
}

impl Grid {
    /// The domain of the cell map is exactly the rectangle of the grid's
    /// dimensions.
    pub open spec fn wf(self) -> bool {
        forall|x: int, y: int|
            grid_cells(self).dom().contains((x, y)) <==> (0 <= x < grid_dim(self).0 && 0 <= y
                < grid_dim(self).1)
    }

    /// The cell at the given coordinates.
    pub open spec fn at(self, x: int, y: int) -> GridCell {
        grid_cells(self)[(x, y)]
    }

    /// Relies on `ndarray::Array2::from_elem`: builds a `width` by `height`
    /// array with every element equal to `elem`.  The bounds mirror the
    /// shape check ndarray performs, which multiplies the non-zero axis
    /// lengths only, so each axis must stay within range on its own.
    #[verifier::external_body]
    pub fn from_elem(width: usize, height: usize, elem: GridCell) -> (r: Grid)
        requires
            width <= isize::MAX,
            height <= isize::MAX,
            width * height <= isize::MAX,
        ensures
            r.wf(),
            grid_dim(r) == (width as int, height as int),
            forall|x: int, y: int|
                0 <= x < width && 0 <= y < height ==> #[trigger] r.at(x, y) == elem,
    {
        Grid { cells: ndarray::Array2::from_elem((width, height), elem) }
    }

    /// Relies on indexing `ndarray::Array2`: returns the element at
    /// `[x, y]`.
    #[verifier::external_body]
    pub fn get(&self, x: usize, y: usize) -> (r: GridCell)
        requires
            self.wf(),
            (x as int) < grid_dim(*self).0,
            (y as int) < grid_dim(*self).1,
        ensures
            r == self.at(x as int, y as int),
    {
        self.cells[[x, y]]
    }

    /// Relies on mutable indexing of `ndarray::Array2`: replaces the
    /// element at `[x, y]`.
    #[verifier::external_body]
    pub fn set(&mut self, x: usize, y: usize, value: GridCell)
        requires
            old(self).wf(),
            (x as int) < grid_dim(*old(self)).0,
            (y as int) < grid_dim(*old(self)).1,
        ensures
            final(self).wf(),
            grid_dim(*final(self)) == grid_dim(*old(self)),
            grid_cells(*final(self)) == grid_cells(*old(self)).insert(
                ((x as int), (y as int)),
                value,
            ),
    {
        self.cells[[x, y]] = value;
    }

    /// Relies on `ndarray::Array2::dim`: returns the axis lengths the array
    /// was created with.
    #[verifier::external_body]
    pub fn dim(&self) -> (r: (usize, usize))
        ensures
            (r.0 as int, r.1 as int) == grid_dim(*self),
    {
        self.cells.dim()
    }

    /// Relies on `ndarray::Array2::clone`: returns an array with the same
    /// dimensions and elements.
    #[verifier::external_body]
    pub fn duplicate(&self) -> (r: Grid)
        ensures
            grid_dim(r) == grid_dim(*self),
            grid_cells(r) == grid_cells(*self),
    {
        Grid { cells: self.cells.clone() }
    }
}

/// The empty cells found at column `x` among rows `0 .. upto_y`, scanned in
/// increasing row order.
pub open spec fn empties_at_x(g: Grid, x: int, upto_y: int) -> Seq<Vector2i>
    decreases upto_y,
{
    if upto_y <= 0 {
        Seq::empty()
    } else {
        empties_at_x(g, x, upto_y - 1) + if g.at(x, upto_y - 1) == GridCell::Empty {
            seq![Vector2i { x: x as i32, y: (upto_y - 1) as i32 }]
        } else {
            Seq::empty()
        }
    }
}

/// The empty cells among columns `0 .. upto_x`, each scanned over `h` rows,
/// in x-major scan order.
pub open spec fn empties_upto_x(g: Grid, upto_x: int, h: int) -> Seq<Vector2i>
    decreases upto_x,
{
    if upto_x <= 0 {
        Seq::empty()
    } else {
        empties_upto_x(g, upto_x - 1, h) + empties_at_x(g, upto_x - 1, h)
    }
}

/// All empty cells of the grid, in x-major scan order.
pub open spec fn empty_cells_in_order(g: Grid) -> Seq<Vector2i> {
    empties_upto_x(g, grid_dim(g).0, grid_dim(g).1)
}

/// Scanning more rows of one column only appends empty cells.
proof fn lemma_empties_at_x_prefix(g: Grid, x: int, y1: int, y2: int)
    requires
        y1 <= y2,
    ensures
        empties_at_x(g, x, y1).is_prefix_of(empties_at_x(g, x, y2)),
    decreases y2 - y1,
{
    if y1 < y2 {
        lemma_empties_at_x_prefix(g, x, y1, y2 - 1);
    }
}

/// Scanning more columns only appends empty cells.
proof fn lemma_empties_upto_x_prefix(g: Grid, x1: int, x2: int, h: int)
    requires
        x1 <= x2,
        0 <= h,
    ensures
        empties_upto_x(g, x1, h).is_prefix_of(empties_upto_x(g, x2, h)),
    decreases x2 - x1,
{
    if x1 < x2 {
        lemma_empties_upto_x_prefix(g, x1, x2 - 1, h);
        lemma_empties_at_x_prefix(g, x2 - 1, 0, h);
    }
}

/// Every entry of one column's scan lies in that column, in range, and is
/// shown empty by the grid.
proof fn lemma_empties_at_x_entries(g: Grid, x: int, upto_y: int, idx: int)
    requires
        0 <= idx < empties_at_x(g, x, upto_y).len(),
        0 <= x <= i32::MAX,
        upto_y <= i32::MAX,
    ensures
        empties_at_x(g, x, upto_y)[idx].x == x,
        0 <= empties_at_x(g, x, upto_y)[idx].y < upto_y,
        g.at(x, empties_at_x(g, x, upto_y)[idx].y as int) == GridCell::Empty,
    decreases upto_y,
{
    if upto_y > 0 {
        let prev = empties_at_x(g, x, upto_y - 1);
        if idx < prev.len() {
            lemma_empties_at_x_entries(g, x, upto_y - 1, idx);
        } else {
            assert(g.at(x, upto_y - 1) == GridCell::Empty);
        }
    }
}

/// Every entry of the full scan lies inside the scanned rectangle and is
/// shown empty by the grid.
proof fn lemma_empties_upto_x_entries(g: Grid, upto_x: int, h: int, idx: int)
    requires
        0 <= idx < empties_upto_x(g, upto_x, h).len(),
        upto_x <= i32::MAX,
        h <= i32::MAX,
    ensures
        0 <= empties_upto_x(g, upto_x, h)[idx].x < upto_x,
        0 <= empties_upto_x(g, upto_x, h)[idx].y < h,
        g.at(
            empties_upto_x(g, upto_x, h)[idx].x as int,
            empties_upto_x(g, upto_x, h)[idx].y as int,
        ) == GridCell::Empty,
    decreases upto_x,
{
    if upto_x > 0 {
        let prev = empties_upto_x(g, upto_x - 1, h);
        if idx < prev.len() {
            lemma_empties_upto_x_entries(g, upto_x - 1, h, idx);
        } else {
            lemma_empties_at_x_entries(g, upto_x - 1, h, idx - prev.len());
        }
    }
}

/// Every cell the empty-cell scan lists lies inside the grid and is shown
/// empty by it.
pub proof fn lemma_empty_cells_are_empty(g: Grid, n: int)
    requires
        0 <= n < empty_cells_in_order(g).len(),
        grid_dim(g).0 <= i32::MAX,
        grid_dim(g).1 <= i32::MAX,
    ensures
        0 <= empty_cells_in_order(g)[n].x < grid_dim(g).0,
        0 <= empty_cells_in_order(g)[n].y < grid_dim(g).1,
        g.at(empty_cells_in_order(g)[n].x as int, empty_cells_in_order(g)[n].y as int)
            == GridCell::Empty,
{
    lemma_empties_upto_x_entries(g, grid_dim(g).0, grid_dim(g).1, n);
}

impl Grid {
    /// Scans the grid in x-major order and returns the `n`-th empty cell.
    /// The caller guarantees that at least `n + 1` empty cells exist.
    pub fn nth_empty_cell(&self, n: usize) -> (r: Vector2i)
        requires
            self.wf(),
            grid_dim(*self).0 <= i32::MAX,
            grid_dim(*self).1 <= i32::MAX,
            n < empty_cells_in_order(*self).len(),
        ensures
            r == empty_cells_in_order(*self)[n as int],
    {
        let (w, h) = self.dim();
        let mut count: usize = 0;
        let mut x: usize = 0;
        while x < w
            invariant
                self.wf(),
                grid_dim(*self) == (w as int, h as int),
                w <= i32::MAX,
                h <= i32::MAX,
                n < empty_cells_in_order(*self).len(),
                x <= w,
                count == empties_upto_x(*self, x as int, h as int).len(),
                count <= n,
            decreases w - x,
        {
            let mut y: usize = 0;
            while y < h
                invariant
                    self.wf(),
                    grid_dim(*self) == (w as int, h as int),
                    w <= i32::MAX,
                    h <= i32::MAX,
                    n < empty_cells_in_order(*self).len(),
                    x < w,
                    y <= h,
                    count == empties_upto_x(*self, x as int, h as int).len() + empties_at_x(
                        *self,
                        x as int,
                        y as int,
                    ).len(),
                    count <= n,
                decreases h - y,
            {
                if self.get(x, y) == GridCell::Empty {
                    if count == n {
                        proof {
                            let cell = Vector2i { x: x as i32, y: y as i32 };
                            let head = empties_upto_x(*self, x as int, h as int);
                            let row_seen = empties_at_x(*self, x as int, y as int);
                            let row_next = empties_at_x(*self, x as int, y as int + 1);
                            let row_full = empties_at_x(*self, x as int, h as int);
                            let col_next = empties_upto_x(*self, x as int + 1, h as int);
                            let full = empty_cells_in_order(*self);
                            assert(row_next == row_seen + seq![cell]);
                            lemma_empties_at_x_prefix(*self, x as int, y as int + 1, h as int);
                            lemma_empties_upto_x_prefix(
                                *self,
                                x as int + 1,
                                grid_dim(*self).0,
                                h as int,
                            );
                            let i = n - head.len();
                            assert(i == row_seen.len());
                            assert(row_next[i] == cell);
                            assert(row_full[i] == cell) by {
                                assert(row_next.is_prefix_of(row_full));
                                assert(row_full.subrange(0, row_next.len() as int)[i] == row_full[i]);
                            }
                            assert(col_next == head + row_full);
                            assert(col_next[n as int] == cell);
                            assert(n < col_next.len());
                            assert(full[n as int] == cell) by {
                                assert(col_next.is_prefix_of(full));
                                assert(full.subrange(0, col_next.len() as int)[n as int] == full[
                                    n as int
                                ]);
                            }
                        }
                        return Vector2i::new(x as i32, y as i32);
                    }
                    count = count + 1;
                    proof {
                        assert(count <= n);
                    }
                }
                proof {
                    assert(empties_at_x(*self, x as int, y as int + 1).len() == empties_at_x(
                        *self,
                        x as int,
                        y as int,
                    ).len() + if self.at(x as int, y as int) == GridCell::Empty {
                        1int
                    } else {
                        0int
                    });
                }
                y = y + 1;
            }
            x = x + 1;
        }
        proof {
            assert(false);
        }
        vstd::pervasive::unreached()
    }
}

} // verus!
