use lite_xl::terminal::buffer::cell::Cell;
use lite_xl::terminal::buffer::grid::Grid;

#[test]
fn test_grid_new() {
    let grid = Grid::new(24, 80);
    assert_eq!(grid.rows(), 24);
    assert_eq!(grid.cols(), 80);
    assert_eq!(grid.size(), (24, 80));
}

#[test]
fn test_grid_get_set() {
    let mut grid = Grid::new(3, 3);
    let cell = Cell::new('X');

    assert!(grid.set(1, 1, cell.clone()));
    assert_eq!(grid.get(1, 1), Some(&cell));
    assert_eq!(grid.get(10, 10), None);
}

#[test]
fn test_grid_clear() {
    let mut grid = Grid::new(2, 2);
    grid.set(0, 0, Cell::new('A'));
    grid.set(1, 1, Cell::new('B'));

    grid.clear();

    assert_eq!(grid.get(0, 0).unwrap().c, ' ');
    assert_eq!(grid.get(1, 1).unwrap().c, ' ');
}

#[test]
fn test_grid_clear_row() {
    let mut grid = Grid::new(3, 3);
    grid.set(0, 0, Cell::new('A'));
    grid.set(1, 0, Cell::new('B'));
    grid.set(1, 1, Cell::new('C'));

    grid.clear_row(1);

    assert_eq!(grid.get(0, 0).unwrap().c, 'A');
    assert_eq!(grid.get(1, 0).unwrap().c, ' ');
    assert_eq!(grid.get(1, 1).unwrap().c, ' ');
}

#[test]
fn test_grid_scroll_up() {
    let mut grid = Grid::new(3, 2);
    grid.set(0, 0, Cell::new('A'));
    grid.set(1, 0, Cell::new('B'));
    grid.set(2, 0, Cell::new('C'));

    let removed = grid.scroll_up();
    assert_eq!(removed[0].c, 'A');
    assert_eq!(grid.get(0, 0).unwrap().c, 'B');
    assert_eq!(grid.get(1, 0).unwrap().c, 'C');
    assert_eq!(grid.get(2, 0).unwrap().c, ' ');
}

#[test]
fn test_grid_resize_grow() {
    let mut grid = Grid::new(2, 2);
    grid.set(0, 0, Cell::new('A'));
    grid.set(1, 1, Cell::new('B'));

    grid.resize(3, 3);

    assert_eq!(grid.rows(), 3);
    assert_eq!(grid.cols(), 3);
    assert_eq!(grid.get(0, 0).unwrap().c, 'A');
    assert_eq!(grid.get(1, 1).unwrap().c, 'B');
    assert_eq!(grid.get(2, 2).unwrap().c, ' ');
}

#[test]
fn test_grid_resize_shrink() {
    let mut grid = Grid::new(3, 3);
    grid.set(0, 0, Cell::new('A'));
    grid.set(1, 1, Cell::new('B'));
    grid.set(2, 2, Cell::new('C'));

    grid.resize(2, 2);

    assert_eq!(grid.rows(), 2);
    assert_eq!(grid.cols(), 2);
    assert_eq!(grid.get(0, 0).unwrap().c, 'A');
    assert_eq!(grid.get(1, 1).unwrap().c, 'B');
    assert_eq!(grid.get(2, 2), None);
}

#[test]
fn test_grid_to_string() {
    let mut grid = Grid::new(2, 3);
    grid.set(0, 0, Cell::new('A'));
    grid.set(0, 1, Cell::new('B'));
    grid.set(0, 2, Cell::new('C'));
    grid.set(1, 0, Cell::new('D'));
    grid.set(1, 1, Cell::new('E'));
    grid.set(1, 2, Cell::new('F'));

    assert_eq!(grid.to_string(), "ABC\nDEF");
}

#[test]
fn grid_get_after_set_and_regions() {
    let mut grid = Grid::new(4, 3);
    assert!(!grid.set(4, 0, Cell::new('Z')));
    assert!(grid.set_char(3, 2, 'q'));
    assert_eq!(grid.get(3, 2).unwrap().c, 'q');
    grid.fill_region(0, 0, 1, 1, Cell::new('#'));
    assert_eq!(grid.to_string(), "## \n## \n   \n  q");
    grid.scroll_region_down(0, 2);
    assert_eq!(grid.to_string(), "   \n## \n## \n  q");
    assert_eq!(grid.cells().len(), 12);
    assert_eq!(grid.row(1).unwrap().len(), 3);
    assert!(grid.row(4).is_none());
}

#[test]
fn row_mut_changes_a_row_in_place() {
    let mut grid = Grid::new(2, 3);
    if let Some(row) = grid.row_mut(1) {
        assert_eq!(row.len(), 3);
        row[2].c = 'z';
    } else {
        panic!("expected a row");
    }
    assert_eq!(grid.get(1, 2).unwrap().c, 'z');
    assert!(grid.row_mut(2).is_none());
}
