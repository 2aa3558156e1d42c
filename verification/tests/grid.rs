use rs_file_explorer::grid::{GridLayout, GridPosition};

#[test]
fn capacity_of_hundred_wide_with_cells_of_thirty_five_is_two() {
    let layout = GridLayout::new(35, 30, 20).unwrap();
    assert_eq!(layout.column_capacity(100), 2);
    assert_eq!(GridLayout::standard().column_capacity(100), 2);
}

#[test]
fn capacity_is_never_zero() {
    let layout = GridLayout::standard();
    for width in [0, 1, 34, 35, 36, 69, 70, 71, 1000, u32::MAX] {
        assert!(layout.column_capacity(width) >= 1, "width {}", width);
    }
    assert!(GridLayout::new(u32::MAX, 1, 1).unwrap().column_capacity(0) >= 1);
    assert!(GridLayout::new(1, 1, 1).unwrap().column_capacity(0) >= 1);
}

#[test]
fn capacity_is_the_whole_number_of_cells_that_fit() {
    let layout = GridLayout::standard();
    assert_eq!(layout.column_capacity(0), 1);
    assert_eq!(layout.column_capacity(34), 1);
    assert_eq!(layout.column_capacity(35), 1);
    assert_eq!(layout.column_capacity(69), 1);
    assert_eq!(layout.column_capacity(70), 2);
    assert_eq!(layout.column_capacity(104), 2);
    assert_eq!(layout.column_capacity(105), 3);
    assert_eq!(layout.column_capacity(350), 10);
    assert_eq!(GridLayout::new(1, 1, 0).unwrap().column_capacity(7), 7);
}

#[test]
fn narrower_than_a_cell_gives_a_single_column() {
    let layout = GridLayout::standard();
    assert_eq!(layout.column_capacity(10), 1);
    for index in 0..6 {
        assert_eq!(layout.position(index, 10), GridPosition { row: index, column: 0 });
    }
    assert_eq!(layout.row_count(6, 10), 6);
}

#[test]
fn layout_without_cell_width_is_refused() {
    assert!(GridLayout::new(0, 30, 20).is_none());
    assert!(GridLayout::new(1, 0, 0).is_some());
}

#[test]
fn standard_measures() {
    let layout = GridLayout::standard();
    assert_eq!(layout.cell_width(), 35);
    assert_eq!(layout.row_height(), 30);
    assert_eq!(layout.spacing(), 20);
    let other = GridLayout::new(7, 8, 9).unwrap();
    assert_eq!((other.cell_width(), other.row_height(), other.spacing()), (7, 8, 9));
}

#[test]
fn positions_fill_rows_from_the_left() {
    let layout = GridLayout::standard();
    // 105 wide: three columns.
    let expected = [(0, 0), (0, 1), (0, 2), (1, 0), (1, 1), (1, 2), (2, 0)];
    for (index, (row, column)) in expected.iter().enumerate() {
        assert_eq!(layout.position(index, 105), GridPosition { row: *row, column: *column });
    }
    assert_eq!(layout.position(5, 100), GridPosition { row: 2, column: 1 });
}

#[test]
fn position_follows_the_width_of_the_moment() {
    let layout = GridLayout::standard();
    assert_eq!(layout.position(4, 70), GridPosition { row: 2, column: 0 });
    assert_eq!(layout.position(4, 140), GridPosition { row: 1, column: 0 });
    assert_eq!(layout.position(4, 175), GridPosition { row: 0, column: 4 });
}

#[test]
fn position_of_the_largest_index() {
    let layout = GridLayout::standard();
    let at = layout.position(usize::MAX, 70);
    assert_eq!(at.row, usize::MAX / 2);
    assert_eq!(at.column, usize::MAX % 2);
}

#[test]
fn no_entries_take_no_row() {
    let layout = GridLayout::standard();
    assert_eq!(layout.row_count(0, 100), 0);
    assert_eq!(layout.row_count(0, 0), 0);
}

#[test]
fn row_count_rounds_up() {
    let layout = GridLayout::standard();
    assert_eq!(layout.row_count(1, 100), 1);
    assert_eq!(layout.row_count(2, 100), 1);
    assert_eq!(layout.row_count(3, 100), 2);
    assert_eq!(layout.row_count(4, 100), 2);
    assert_eq!(layout.row_count(5, 100), 3);
    assert_eq!(layout.row_count(usize::MAX, 35), usize::MAX);
    assert_eq!(layout.row_count(usize::MAX, 70), usize::MAX / 2 + 1);
}

#[test]
fn rows_after_the_first_begin_at_multiples_of_the_capacity() {
    let layout = GridLayout::standard();
    // 105 wide: three columns.
    let begins: Vec<bool> = (0..8).map(|index| layout.begins_later_row(index, 105)).collect();
    assert_eq!(begins, vec![false, false, false, true, false, false, true, false]);
    // Narrower than a cell: every entry but the first begins a row.
    let begins: Vec<bool> = (0..4).map(|index| layout.begins_later_row(index, 0)).collect();
    assert_eq!(begins, vec![false, true, true, true]);
}

#[test]
fn positions_of_a_whole_listing() {
    let layout = GridLayout::standard();
    let all = layout.positions(5, 70);
    let expected: Vec<GridPosition> = [(0, 0), (0, 1), (1, 0), (1, 1), (2, 0)]
        .iter()
        .map(|(row, column)| GridPosition { row: *row, column: *column })
        .collect();
    assert_eq!(all, expected);
    for (index, at) in all.iter().enumerate() {
        assert_eq!(*at, layout.position(index, 70));
    }
}

#[test]
fn no_entries_have_no_positions() {
    assert!(GridLayout::standard().positions(0, 100).is_empty());
    assert!(GridLayout::standard().positions(0, 0).is_empty());
}
