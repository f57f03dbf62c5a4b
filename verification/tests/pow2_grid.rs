use petri::simulation::physics::spatial_grid::spatial_grid::DenseGrid;

#[test]
fn new_grid_has_square_of_empty_cells() {
    let g: DenseGrid<u8> = DenseGrid::new(4, 64);
    // 16 cells per side
    assert_eq!(g.flat_ind(63, 63), 255);
    assert_eq!(g.flat_ind(0, 0), 0);
    assert!(g.query(0, 0, 63, 63, u64::MAX).is_empty());
}

#[test]
fn flat_ind_packs_row_above_column() {
    let g: DenseGrid<u8> = DenseGrid::new(4, 64);
    // column 17 / 4 = 4, row 9 / 4 = 2 -> 2 * 16 + 4
    assert_eq!(g.flat_ind(17, 9), 36);
}

#[test]
fn cell_range_is_column_major() {
    let g: DenseGrid<u8> = DenseGrid::new(4, 64);
    // columns 1..=2, rows 0..=1
    assert_eq!(g.cell_range(4, 0, 11, 7), vec![1, 17, 2, 18]);
}

#[test]
fn cell_range_empty_when_reversed() {
    let g: DenseGrid<u8> = DenseGrid::new(4, 64);
    assert!(g.cell_range(20, 0, 4, 7).is_empty());
}

#[test]
fn insert_then_query_finds_entry() {
    let mut g: DenseGrid<(i32, i32)> = DenseGrid::new(8, 64);
    g.insert(10, 20, (10, 20), 1);
    g.insert(12, 22, (12, 22), 2);
    g.insert(50, 50, (50, 50), 3);
    let hits = g.query(0, 0, 31, 31, 99);
    assert_eq!(hits, vec![((10, 20), 1), ((12, 22), 2)]);
    let hits = g.query(0, 0, 31, 31, 1);
    assert_eq!(hits, vec![((12, 22), 2)]);
}

#[test]
fn query_skips_cells_past_the_grid() {
    let mut g: DenseGrid<u8> = DenseGrid::new(8, 16);
    g.insert(9, 9, 7, 5);
    // rows past the grid give indices past the last cell, which are skipped
    let hits = g.query(8, 8, 15, 100, 0);
    assert_eq!(hits, vec![(7, 5)]);
}

#[test]
fn columns_past_the_side_alias_by_bitwise_or() {
    let mut g: DenseGrid<u8> = DenseGrid::new(8, 16);
    g.insert(9, 9, 7, 5);
    // two cells per side: column 3 of row 0, and columns 1 and 3 of row 1,
    // all pack to index 3, the cell of (9, 9)
    assert_eq!(g.cell_range(0, 0, 31, 15), vec![0, 2, 1, 3, 2, 2, 3, 3]);
    let hits = g.query(0, 0, 31, 15, 0);
    assert_eq!(hits, vec![(7, 5), (7, 5), (7, 5)]);
}

#[test]
fn clear_empties_all_cells() {
    let mut g: DenseGrid<u8> = DenseGrid::new(8, 64);
    g.insert(1, 1, 0, 1);
    g.insert(60, 60, 0, 2);
    g.clear();
    assert!(g.query(0, 0, 63, 63, 0).is_empty());
}
