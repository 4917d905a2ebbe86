use tetris_engine::session::{Intent, Session};
use tetris_engine::shapes::PieceKind;
use tetris_engine::tetrimino::Tetrimino;

#[test]
fn fresh_session_has_zeroed_totals_and_spawned_piece() {
    let s = Session::new();
    assert_eq!(s.score(), 0);
    assert_eq!(s.lines(), 0);
    assert_eq!(s.level(), 1);
    assert!(!s.is_game_over());
    let piece = s.active_piece();
    assert_eq!(piece.x, 4);
    assert_eq!(piece.y, 0);
    assert_eq!(piece.current_state, 0);
    for row in s.board_rows() {
        for &cell in row {
            assert_eq!(cell, 0);
        }
    }
}

#[test]
fn horizontal_intents_move_by_one_column() {
    let mut s = Session::new();
    s.handle_intent(Intent::MoveLeft);
    assert_eq!(s.active_piece().x, 3);
    assert_eq!(s.active_piece().y, 0);
    s.handle_intent(Intent::MoveRight);
    assert_eq!(s.active_piece().x, 4);
}

#[test]
fn soft_drop_moves_one_row_down() {
    let mut s = Session::new();
    s.handle_intent(Intent::SoftDrop);
    assert_eq!(s.active_piece().y, 1);
    assert_eq!(s.active_piece().x, 4);
}

#[test]
fn gravity_moves_the_piece_down_while_it_can_fall() {
    let mut s = Session::new();
    s.tick_gravity();
    assert_eq!(s.active_piece().y, 1);
    assert!(!s.is_game_over());
}

#[test]
fn locking_always_advances_to_a_fresh_piece() {
    let mut s = Session::new();
    s.piece = Tetrimino::new(PieceKind::O);
    s.piece.y = 14;
    s.tick_gravity();
    // The O piece rested on the floor: it locked and a new piece spawned.
    assert!(!s.is_game_over());
    assert_eq!(s.active_piece().x, 4);
    assert_eq!(s.active_piece().y, 0);
    assert_eq!(s.active_piece().current_state, 0);
    assert_eq!(s.board_rows()[14][4], 4);
    assert_eq!(s.board_rows()[14][5], 4);
    assert_eq!(s.board_rows()[15][4], 4);
    assert_eq!(s.board_rows()[15][5], 4);
    assert_eq!(s.lines(), 0);
    assert_eq!(s.score(), 0);
}

#[test]
fn clearing_one_row_updates_lines_and_score() {
    let mut s = Session::new();
    for c in 0..10 {
        if c != 4 && c != 5 {
            s.board.cells[15][c] = 1;
        }
    }
    s.piece = Tetrimino::new(PieceKind::O);
    s.piece.y = 14;
    s.tick_gravity();
    assert_eq!(s.lines(), 1);
    assert_eq!(s.level(), 1);
    // One cleared row at level one: 1 * 1 * 1 * 100.
    assert_eq!(s.score(), 100);
    // The cleared bottom row is replaced by the shifted-down row holding
    // the upper half of the O piece; a fresh empty row enters on top.
    assert_eq!(s.board_rows()[15][4], 4);
    assert_eq!(s.board_rows()[15][5], 4);
    assert_eq!(s.board_rows()[15][0], 0);
    for c in 0..10 {
        assert_eq!(s.board_rows()[0][c], 0);
    }
    assert!(!s.is_game_over());
}

#[test]
fn blocked_spawn_sets_game_over_and_freezes_the_session() {
    let mut s = Session::new();
    s.piece = Tetrimino::new(PieceKind::I);
    for c in 4..8 {
        s.board.cells[1][c] = 1;
    }
    s.tick_gravity();
    // The bar locked in row 0, columns 4..=7; every kind's first state
    // needs one of those cells at spawn, so the session is over.
    assert!(s.is_game_over());
    let board_before: Vec<Vec<u8>> = s.board_rows().clone();
    let score_before = s.score();
    let lines_before = s.lines();
    s.tick_gravity();
    s.handle_intent(Intent::MoveLeft);
    s.handle_intent(Intent::Rotate);
    s.handle_intent(Intent::SoftDrop);
    assert_eq!(*s.board_rows(), board_before);
    assert_eq!(s.score(), score_before);
    assert_eq!(s.lines(), lines_before);
    assert!(s.is_game_over());
}

#[test]
fn untouched_stack_eventually_tops_out() {
    let mut s = Session::new();
    let mut last_score = 0;
    let mut last_lines = 0;
    let mut ticks = 0;
    while !s.is_game_over() && ticks < 10000 {
        s.tick_gravity();
        assert!(s.score() >= last_score);
        assert!(s.lines() >= last_lines);
        last_score = s.score();
        last_lines = s.lines();
        ticks += 1;
    }
    // Pieces spawn at the same column and never move sideways: the middle
    // stack must reach the spawn region well within the tick budget.
    assert!(s.is_game_over());
}
