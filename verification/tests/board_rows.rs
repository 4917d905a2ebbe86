use tetris_engine::board::Board;
use tetris_engine::shapes::PieceKind;
use tetris_engine::tetrimino::Tetrimino;

#[test]
fn fresh_board_is_empty_10_by_16() {
    let b = Board::new();
    assert_eq!(b.cells.len(), 16);
    for row in &b.cells {
        assert_eq!(row.len(), 10);
        for &cell in row {
            assert_eq!(cell, 0);
        }
    }
}

#[test]
fn locking_writes_the_kind_tag_into_covered_cells() {
    let mut b = Board::new();
    let t = Tetrimino::new(PieceKind::I);
    b.write_piece(&t);
    for r in 0..16 {
        for c in 0..10 {
            if r == 0 && (4..8).contains(&c) {
                assert_eq!(b.cells[r][c], 1);
            } else {
                assert_eq!(b.cells[r][c], 0);
            }
        }
    }
}

#[test]
fn clearing_an_empty_board_removes_nothing() {
    let mut b = Board::new();
    let before = b.cells.clone();
    let n = b.clear_full_rows();
    assert_eq!(n, 0);
    assert_eq!(b.cells, before);
}

#[test]
fn clearing_two_bottom_rows_shifts_everything_down_by_two() {
    let mut b = Board::new();
    for c in 0..10 {
        b.cells[14][c] = 1;
        b.cells[15][c] = 2;
    }
    b.cells[13][0] = 7;
    b.cells[12][9] = 6;
    let n = b.clear_full_rows();
    assert_eq!(n, 2);
    // Two fresh empty rows on top, every surviving row shifted down by two.
    for c in 0..10 {
        assert_eq!(b.cells[0][c], 0);
        assert_eq!(b.cells[1][c], 0);
    }
    assert_eq!(b.cells[15][0], 7);
    assert_eq!(b.cells[14][9], 6);
    assert_eq!(b.cells[15][9], 0);
}

#[test]
fn clearing_a_middle_row_preserves_order_of_untouched_rows() {
    let mut b = Board::new();
    for c in 0..10 {
        b.cells[8][c] = 1;
    }
    b.cells[7][3] = 3;
    b.cells[9][5] = 4;
    let n = b.clear_full_rows();
    assert_eq!(n, 1);
    for c in 0..10 {
        assert_eq!(b.cells[0][c], 0);
    }
    // Rows above the removed one shift down by one; rows below stay.
    assert_eq!(b.cells[8][3], 3);
    assert_eq!(b.cells[9][5], 4);
}

#[test]
fn a_row_with_one_hole_is_not_cleared() {
    let mut b = Board::new();
    for c in 0..10 {
        b.cells[15][c] = 1;
    }
    b.cells[15][6] = 0;
    let n = b.clear_full_rows();
    assert_eq!(n, 0);
    assert_eq!(b.cells[15][6], 0);
    assert_eq!(b.cells[15][0], 1);
}
