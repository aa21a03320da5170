use snakez::Game;
use snakez::Vector2i;
use snakez::grid::Grid;
use snakez::grid::GridCell;
use snakez::grid::PizzaRec;

// The empty-cell search scans in x-major order.
#[test]
fn test_nth_empty_cell_scan_order() {
    let grid = Grid::from_elem(2, 2, GridCell::Empty);
    assert_eq!(grid.nth_empty_cell(0), Vector2i::new(0, 0));
    assert_eq!(grid.nth_empty_cell(1), Vector2i::new(0, 1));
    assert_eq!(grid.nth_empty_cell(2), Vector2i::new(1, 0));
    assert_eq!(grid.nth_empty_cell(3), Vector2i::new(1, 1));
}

// Occupied cells are skipped by the search.
#[test]
fn test_nth_empty_cell_skips_occupied() {
    let mut grid = Grid::from_elem(2, 2, GridCell::Empty);
    grid.set(0, 1, GridCell::Pizza(PizzaRec {}));
    assert_eq!(grid.nth_empty_cell(0), Vector2i::new(0, 0));
    assert_eq!(grid.nth_empty_cell(1), Vector2i::new(1, 0));
    assert_eq!(grid.nth_empty_cell(2), Vector2i::new(1, 1));
}

// With a single free cell the pizza spawn position is forced, whatever
// the random draw.
#[test]
fn test_calc_spaw_pos_for_pizza_single_free_cell() {
    let mut grid = Grid::from_elem(2, 1, GridCell::Empty);
    grid.set(0, 0, GridCell::Pizza(PizzaRec {}));
    let pos = Game::calc_spaw_pos_for_pizza(&grid, 1);
    assert_eq!(pos, Vector2i::new(1, 0));
}

// A duplicate carries the same dimensions and cells.
#[test]
fn test_grid_duplicate() {
    let mut grid = Grid::from_elem(3, 2, GridCell::Empty);
    grid.set(2, 1, GridCell::Pizza(PizzaRec {}));
    let copy = grid.duplicate();
    assert_eq!(copy.dim(), (3, 2));
    assert_eq!(copy.get(2, 1), GridCell::Pizza(PizzaRec {}));
    assert_eq!(copy.get(0, 0), GridCell::Empty);
}
