use tetris_engine::shapes::{kind_from_index, kind_tag, PieceKind};
use tetris_engine::tetrimino::Tetrimino;

#[test]
fn state_counts_match_the_catalog() {
    assert_eq!(Tetrimino::new(PieceKind::I).states.len(), 2);
    assert_eq!(Tetrimino::new(PieceKind::J).states.len(), 4);
    assert_eq!(Tetrimino::new(PieceKind::L).states.len(), 4);
    assert_eq!(Tetrimino::new(PieceKind::O).states.len(), 1);
    assert_eq!(Tetrimino::new(PieceKind::S).states.len(), 2);
    assert_eq!(Tetrimino::new(PieceKind::Z).states.len(), 2);
    assert_eq!(Tetrimino::new(PieceKind::T).states.len(), 4);
}

#[test]
fn i_piece_states_are_the_horizontal_and_vertical_bar() {
    let t = Tetrimino::new(PieceKind::I);
    let horizontal = vec![
        vec![1u8, 1, 1, 1],
        vec![0u8, 0, 0, 0],
        vec![0u8, 0, 0, 0],
        vec![0u8, 0, 0, 0],
    ];
    let vertical = vec![
        vec![1u8, 0, 0, 0],
        vec![1u8, 0, 0, 0],
        vec![1u8, 0, 0, 0],
        vec![1u8, 0, 0, 0],
    ];
    assert_eq!(t.states[0], horizontal);
    assert_eq!(t.states[1], vertical);
}

#[test]
fn s_piece_states_hold_their_tag() {
    let t = Tetrimino::new(PieceKind::S);
    let flat = vec![
        vec![0u8, 5, 5, 0],
        vec![5u8, 5, 0, 0],
        vec![0u8, 0, 0, 0],
        vec![0u8, 0, 0, 0],
    ];
    assert_eq!(t.states[0], flat);
}

#[test]
fn every_state_is_a_4_by_4_frame_of_the_tag_or_zero() {
    for i in 0u8..7 {
        let kind = kind_from_index(i);
        let tag = kind_tag(kind);
        let t = Tetrimino::new(kind);
        for state in &t.states {
            assert_eq!(state.len(), 4);
            for row in state {
                assert_eq!(row.len(), 4);
                for &cell in row {
                    assert!(cell == 0 || cell == tag);
                }
            }
        }
    }
}

#[test]
fn tags_are_distinct_across_kinds() {
    let mut seen = Vec::new();
    for i in 0u8..7 {
        let tag = kind_tag(kind_from_index(i));
        assert!(tag != 0);
        assert!(!seen.contains(&tag));
        seen.push(tag);
    }
}
