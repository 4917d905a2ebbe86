use tetris_engine::board::Board;
use tetris_engine::shapes::PieceKind;
use tetris_engine::tetrimino::Tetrimino;

fn empty_map() -> Vec<Vec<u8>> {
    Board::new().cells
}

#[test]
fn spawned_i_piece_fits_on_empty_board() {
    let map = empty_map();
    let t = Tetrimino::new(PieceKind::I);
    assert!(t.test_position(&map, 0, 4, 0));
}

#[test]
fn drop_far_past_floor_is_rejected_and_leaves_position() {
    let map = empty_map();
    let mut t = Tetrimino::new(PieceKind::I);
    assert!(t.test_position(&map, 0, 4, 0));
    let moved = t.change_position(&map, 4, 16);
    assert!(!moved);
    assert_eq!(t.x, 4);
    assert_eq!(t.y, 0);
    assert_eq!(t.current_state, 0);
}

#[test]
fn fits_rejects_negative_horizontal_coordinate() {
    let map = empty_map();
    let t = Tetrimino::new(PieceKind::I);
    assert!(!t.test_position(&map, 0, -1, 0));
}

#[test]
fn fits_rejects_cells_beyond_right_wall() {
    let map = empty_map();
    let t = Tetrimino::new(PieceKind::I);
    assert!(t.test_position(&map, 0, 6, 0));
    assert!(!t.test_position(&map, 0, 7, 0));
}

#[test]
fn fits_rejects_cells_below_bottom() {
    let map = empty_map();
    let t = Tetrimino::new(PieceKind::I);
    assert!(t.test_position(&map, 1, 4, 12));
    assert!(!t.test_position(&map, 1, 4, 13));
}

#[test]
fn fits_rejects_occupied_cell() {
    let mut map = empty_map();
    map[0][4] = 3;
    let t = Tetrimino::new(PieceKind::I);
    assert!(!t.test_position(&map, 0, 4, 0));
}

#[test]
fn move_commits_exactly_the_requested_target() {
    let map = empty_map();
    let mut t = Tetrimino::new(PieceKind::I);
    let moved = t.change_position(&map, 5, 1);
    assert!(moved);
    assert_eq!(t.x, 5);
    assert_eq!(t.y, 1);
    assert_eq!(t.current_state, 0);
}

#[test]
fn rejected_move_changes_nothing() {
    let map = empty_map();
    let mut t = Tetrimino::new(PieceKind::I);
    let moved = t.change_position(&map, 20, 0);
    assert!(!moved);
    assert_eq!(t.x, 4);
    assert_eq!(t.y, 0);
    assert_eq!(t.current_state, 0);
}

#[test]
fn rotation_against_right_wall_kicks_left_by_minimal_offset() {
    let map = empty_map();
    let mut t = Tetrimino::new(PieceKind::I);
    t.current_state = 1;
    t.x = 9;
    assert!(t.test_position(&map, 1, 9, 0));
    t.rotate(&map);
    // Offsets 0, -1, +1, -2, +2 leave the horizontal bar out of bounds or
    // past the wall; -3 is the first offset in the list that clears it.
    assert_eq!(t.current_state, 0);
    assert_eq!(t.x, 6);
    assert_eq!(t.y, 0);
}

#[test]
fn rotation_prefers_minus_one_over_plus_one() {
    let map = empty_map();
    let mut t = Tetrimino::new(PieceKind::I);
    t.current_state = 1;
    t.x = 7;
    t.rotate(&map);
    // Offset 0 puts the bar at columns 7..=10 (out); -1 at 6..=9 fits and
    // is tried before +1.
    assert_eq!(t.current_state, 0);
    assert_eq!(t.x, 6);
}

#[test]
fn rotation_with_no_fitting_offset_changes_nothing() {
    let mut map = empty_map();
    for c in 0..9 {
        map[0][c] = 1;
    }
    let mut t = Tetrimino::new(PieceKind::I);
    t.current_state = 1;
    t.x = 9;
    assert!(t.test_position(&map, 1, 9, 0));
    t.rotate(&map);
    assert_eq!(t.current_state, 1);
    assert_eq!(t.x, 9);
    assert_eq!(t.y, 0);
}

#[test]
fn rotation_at_open_position_keeps_x() {
    let map = empty_map();
    let mut t = Tetrimino::new(PieceKind::T);
    t.rotate(&map);
    assert_eq!(t.current_state, 1);
    assert_eq!(t.x, 4);
}

#[test]
fn single_state_piece_rotates_back_onto_itself() {
    let map = empty_map();
    let mut t = Tetrimino::new(PieceKind::O);
    t.rotate(&map);
    assert_eq!(t.current_state, 0);
    assert_eq!(t.x, 4);
    assert_eq!(t.y, 0);
}
