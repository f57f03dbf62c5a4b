use petri::rendering::gui_apps::grid_app::grid_line_offsets;
use petri::simulation::physics::spatial_grid::DenseGrid;

#[test]
fn new_grid_divides_area() {
    let g: DenseGrid<u8> = DenseGrid::new(10, 100);
    assert_eq!(g.ncells_side, 10);
    assert_eq!(g.cells.len(), 100);
    let g: DenseGrid<u8> = DenseGrid::new(30, 100);
    assert_eq!(g.ncells_side, 3);
    assert_eq!(g.cells.len(), 9);
}

#[test]
fn new_grid_rounds_toward_zero() {
    let g: DenseGrid<u8> = DenseGrid::new(-30, 100);
    assert_eq!(g.ncells_side, -3);
    assert_eq!(g.cells.len(), 9);
    let g: DenseGrid<u8> = DenseGrid::new(200, 100);
    assert_eq!(g.ncells_side, 0);
    assert_eq!(g.cells.len(), 0);
}

#[test]
fn flat_ind_is_row_major() {
    let g: DenseGrid<u8> = DenseGrid::new(10, 100);
    assert_eq!(g.flat_ind(25, 37), 32);
    assert_eq!(g.flat_ind(99, 99), 99);
    assert_eq!(g.flat_ind(-5, 15), 10);
    assert_eq!(g.flat_ind(-15, 0), -1);
}

#[test]
fn cell_range_is_row_major() {
    let g: DenseGrid<u8> = DenseGrid::new(10, 100);
    assert_eq!(g.cell_range(1, 2, 3, 4), vec![13, 14, 23, 24]);
    assert!(g.cell_range(2, 1, 0, 0).is_empty());
}

#[test]
fn insert_then_query_skips_ignored() {
    let mut g: DenseGrid<char> = DenseGrid::new(10, 100);
    g.insert(25, 37, 'a', 1);
    g.insert(26, 38, 'b', 2);
    g.insert(85, 85, 'c', 3);
    assert_eq!(g.query(2, 4, 1, 3, 2), vec![('a', 1)]);
    assert_eq!(g.query(0, 9, 0, 9, 0), vec![('a', 1), ('b', 2), ('c', 3)]);
}

#[test]
fn clear_keeps_cells() {
    let mut g: DenseGrid<char> = DenseGrid::new(10, 100);
    g.insert(5, 5, 'a', 1);
    g.clear();
    assert_eq!(g.cells.len(), 100);
    assert!(g.query(0, 9, 0, 9, 0).is_empty());
}

#[test]
fn grid_lines_between_cells() {
    let g: DenseGrid<u8> = DenseGrid::new(25, 100);
    assert_eq!(grid_line_offsets(&g), vec![25, 50, 75]);
    let g: DenseGrid<u8> = DenseGrid::new(200, 100);
    assert!(grid_line_offsets(&g).is_empty());
}
