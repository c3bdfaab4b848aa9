use nelisp_gtk::grid::CharGrid;

#[test]
fn filled_and_blank_set_every_cell() {
    let g = CharGrid::filled(2, 3, '#');
    assert_eq!((g.rows, g.cols), (2, 3));
    for r in 0..2 {
        for c in 0..3 {
            assert_eq!(g.get(r, c), '#');
        }
    }
    let b = CharGrid::blank(1, 4);
    assert_eq!(b.get(0, 3), ' ');
    let e = CharGrid::blank(0, 0);
    assert_eq!(e.cells.len(), 0);
}

#[test]
fn put_then_get_returns_written_char() {
    let mut g = CharGrid::blank(3, 4);
    g.put(1, 2, 'x');
    assert_eq!(g.get(1, 2), 'x');
    assert_eq!(g.get(1, 1), ' ');
    assert_eq!(g.get(2, 2), ' ');
}

#[test]
fn put_outside_grid_is_ignored() {
    let mut g = CharGrid::blank(2, 2);
    g.put(2, 0, 'x');
    g.put(0, 2, 'x');
    g.put(usize::MAX, usize::MAX, 'x');
    assert!(g.cells.iter().all(|c| *c == ' '));
}

#[test]
fn get_reads_row_major_position() {
    let mut g = CharGrid::blank(2, 3);
    g.put(1, 0, 'z');
    // Column 3 of row 0 is the cell just after the end of row 0.
    assert_eq!(g.get(0, 3), 'z');
}

#[test]
fn put_str_writes_consecutive_columns_and_clips() {
    let mut g = CharGrid::blank(2, 5);
    g.put_str(0, 3, "abc");
    assert_eq!(g.get(0, 3), 'a');
    assert_eq!(g.get(0, 4), 'b');
    assert_eq!(g.get(1, 0), ' ');
    g.put_str(1, 0, "héllo!");
    let row: String = (0..5).map(|c| g.get(1, c)).collect();
    assert_eq!(row, "héllo");
    g.put_str(5, 0, "zz");
    g.put_str(0, 9, "zz");
    assert_eq!(g.get(0, 0), ' ');
}

#[test]
fn clear_all_blanks_every_cell() {
    let mut g = CharGrid::filled(3, 3, 'q');
    g.clear_all();
    assert!(g.cells.iter().all(|c| *c == ' '));
    assert_eq!((g.rows, g.cols), (3, 3));
}
