//! Session state: the board, the active piece, the generator, and the
//! score / cleared-line / level totals, orchestrated once per tick by the
//! host game loop. Totals never decrease; the one terminal condition is
//! "board full at spawn", reported as a flag after which every operation
//! leaves the session untouched.

use vstd::prelude::*;
use crate::board::{
    Board, BOARD_WIDTH, BOARD_HEIGHT, spec_locked, spec_surviving, spec_count_full, spec_empty_row,
    spec_all_empty,
};
use crate::generator::Generator;
use crate::shapes::{spec_kind_states, spec_kind_of_index, state_has_block};
use crate::tetrimino::{Tetrimino, spec_fits, spec_covered_ok, spec_kick_offsets};
use vstd::arithmetic::div_mod::{lemma_div_is_ordered, lemma_div_nonincreasing};

verus! {

/// One player request, handed to the session by the host loop.
#[derive(Clone, Copy, PartialEq, Eq, Structural, Debug)]
pub enum Intent {
    MoveLeft,
    MoveRight,
    SoftDrop,
    Rotate,
}

/// The aggregate the host game loop calls into once per tick.
pub struct Session {
    pub board: Board,
    pub piece: Tetrimino,
    pub generator: Generator,
    pub score: u64,
    pub lines: u64,
    pub level: u64,
    pub game_over: bool,
}

/// Saturating addition on session totals.
pub open spec fn spec_sat_add64(a: u64, b: u64) -> u64 {
    if a + b <= u64::MAX {
        (a + b) as u64
    } else {
        u64::MAX
    }
}

/// The score increment for clearing `cleared` rows in one lock event at
/// `level`: quadratic in the batch size, scaled by the level, saturating.
pub open spec fn spec_score_delta(level: u64, cleared: int) -> u64 {
    let w = cleared * cleared * 100;
    if level * w <= u64::MAX {
        (level * w) as u64
    } else {
        u64::MAX
    }
}

/// The grid after the active piece of `o` is written at its position.
pub open spec fn spec_locked_grid_of(o: Session) -> Seq<Seq<u8>> {
    spec_locked(
        o.board.cells.deep_view(),
        o.piece.states.deep_view(),
        o.piece.current_state as int,
        o.piece.x as int,
        o.piece.y as int,
    )
}

/// How many rows a lock of the active piece of `o` clears.
pub open spec fn spec_rows_cleared(o: Session) -> int {
    spec_count_full(spec_locked_grid_of(o))
}

/// The grid after the lock-and-clear batch: one fresh empty row on top per
/// cleared row, then the surviving rows in order.
pub open spec fn spec_cleared_grid(o: Session) -> Seq<Seq<u8>> {
    Seq::new(spec_rows_cleared(o) as nat, |i: int| spec_empty_row()).add(
        spec_surviving(spec_locked_grid_of(o)),
    )
}

/// `n` is `o` with only the active piece translated to `(nx, ny)`.
pub open spec fn spec_moved_piece(o: Session, n: Session, nx: int, ny: int) -> bool {
    &&& n.piece.x == nx
    &&& n.piece.y == ny
    &&& n.piece.states == o.piece.states
    &&& n.piece.current_state == o.piece.current_state
    &&& n.board == o.board
    &&& n.generator == o.generator
    &&& n.score == o.score
    &&& n.lines == o.lines
    &&& n.level == o.level
    &&& n.game_over == o.game_over
}

/// The active piece of `o` can move one row down.
pub open spec fn spec_can_fall(o: Session) -> bool {
    spec_fits(
        o.piece.states.deep_view(),
        o.board.cells.deep_view(),
        o.piece.current_state as int,
        o.piece.x as int,
        o.piece.y + 1,
    )
}

/// The outcome of a move request by `(dx, dy)`: exactly the target
/// coordinates on success, the whole session untouched on rejection.
pub open spec fn spec_move_outcome(o: Session, n: Session, dx: int, dy: int) -> bool {
    if spec_fits(
        o.piece.states.deep_view(),
        o.board.cells.deep_view(),
        o.piece.current_state as int,
        o.piece.x + dx,
        o.piece.y + dy,
    ) {
        spec_moved_piece(o, n, o.piece.x + dx, o.piece.y + dy)
    } else {
        n == o
    }
}

/// The outcome of a rotation request: everything but the piece is
/// untouched, and the piece either commits the next rotation state at the
/// first fitting kick offset or stays as it was.
pub open spec fn spec_rotate_outcome(o: Session, n: Session) -> bool {
    &&& n.board == o.board
    &&& n.generator == o.generator
    &&& n.score == o.score
    &&& n.lines == o.lines
    &&& n.level == o.level
    &&& n.game_over == o.game_over
    &&& n.piece.states == o.piece.states
    &&& n.piece.y == o.piece.y
    &&& (forall|i: int|
        0 <= i < 6 ==> !o.piece.spec_kick_fits(o.board.cells.deep_view(), i)) ==> n.piece
        == o.piece
    &&& (exists|i: int| 0 <= i < 6 && o.piece.spec_kick_fits(o.board.cells.deep_view(), i))
        ==> exists|j: int|
            {
                &&& 0 <= j < 6
                &&& o.piece.spec_kick_fits(o.board.cells.deep_view(), j)
                &&& forall|i: int|
                    0 <= i < j ==> !o.piece.spec_kick_fits(o.board.cells.deep_view(), i)
                &&& n.piece.current_state == o.piece.next_state_index()
                &&& n.piece.x == o.piece.x + spec_kick_offsets()[j]
            }
}

/// The outcome of a lock event: the piece is written into the board, full
/// rows are cleared in one batch, the totals are updated, and a freshly
/// generated piece stands at the spawn position; the game-over flag is set
/// exactly when that piece does not fit there.
pub open spec fn spec_lock_outcome(o: Session, n: Session) -> bool {
    &&& n.board.cells.deep_view() == spec_cleared_grid(o)
    &&& n.lines == spec_sat_add64(o.lines, spec_rows_cleared(o) as u64)
    &&& n.level == 1 + n.lines / 10
    &&& n.score == spec_sat_add64(o.score, spec_score_delta(n.level, spec_rows_cleared(o)))
    &&& n.generator.prev < 7
    &&& n.piece.states.deep_view() == spec_kind_states(
        spec_kind_of_index(n.generator.prev as int),
    )
    &&& n.piece.x == 4
    &&& n.piece.y == 0
    &&& n.piece.current_state == 0
    &&& n.game_over == !spec_fits(n.piece.states.deep_view(), n.board.cells.deep_view(), 0, 4, 0)
}

/// A legal active piece on a well-formed board stands within the board's
/// bounds: its frame corner satisfies `-3 <= x <= 9` and `y <= 15`.
pub proof fn lemma_legal_piece_bounds(piece: Tetrimino, board: Board)
    requires
        piece.wf(),
        board.wf(),
        spec_fits(
            piece.states.deep_view(),
            board.cells.deep_view(),
            piece.current_state as int,
            piece.x as int,
            piece.y as int,
        ),
    ensures
        -3 <= piece.x <= 9,
        piece.y <= 15,
{
    let sts = piece.states.deep_view();
    let g = board.cells.deep_view();
    let cs = piece.current_state as int;
    assert(state_has_block(sts[cs]));
    let (r, c) = choose|r: int, c: int|
        0 <= r < 4 && 0 <= c < 4 && (#[trigger] sts[cs][r][c]) != 0;
    assert(spec_covered_ok(g, piece.x as int, piece.y as int, r, c));
    assert(g[piece.y + r].len() == BOARD_WIDTH);
}

/// Saturating addition on totals.
fn sat_add64(a: u64, b: u64) -> (r: u64)
    ensures
        r == spec_sat_add64(a, b),
        r >= a,
        r >= b,
{
    if a <= u64::MAX - b {
        a + b
    } else {
        u64::MAX
    }
}

/// The score increment for `cleared` rows at `level`.
fn score_delta(level: u64, cleared: usize) -> (r: u64)
    requires
        cleared <= BOARD_HEIGHT,
    ensures
        r == spec_score_delta(level, cleared as int),
{
    let c: u64 = cleared as u64;
    proof {
        assert((c as int) * (c as int) <= 256 && (c as int) * (c as int) * 100 <= 25600)
            by (nonlinear_arith)
            requires
                0 <= c as int <= 16,
        ;
    }
    let w: u64 = c * c * 100;
    proof {
        assert((level as int) * (w as int) <= (u64::MAX as int) * 25600int) by (nonlinear_arith)
            requires
                level as int <= u64::MAX as int,
                0 <= w as int <= 25600,
        ;
    }
    let p: u128 = (level as u128) * (w as u128);
    if p <= u64::MAX as u128 {
        p as u64
    } else {
        u64::MAX
    }
}

impl Session {
    /// The active piece is legal at its position on the board.
    pub open spec fn piece_legal(self) -> bool {
        spec_fits(
            self.piece.states.deep_view(),
            self.board.cells.deep_view(),
            self.piece.current_state as int,
            self.piece.x as int,
            self.piece.y as int,
        )
    }

    /// Session invariant: all components are well formed, the level is the
    /// one the cleared-line count determines, and while the session is not
    /// over the active piece stands at a legal position.
    pub open spec fn wf(self) -> bool {
        &&& self.board.wf()
        &&& self.piece.wf()
        &&& self.generator.wf()
        &&& self.level == 1 + self.lines / 10
        &&& (!self.game_over ==> self.piece_legal())
    }

    /// A fresh session: empty board, zeroed totals, level one, and a
    /// randomly drawn piece at the spawn position.
    pub fn new() -> (s: Session)
        ensures
            s.wf(),
            s.score == 0,
            s.lines == 0,
            s.level == 1,
            !s.game_over,
            spec_all_empty(s.board.cells.deep_view()),
            s.generator.prev < 7,
            s.piece.states.deep_view() == spec_kind_states(
                spec_kind_of_index(s.generator.prev as int),
            ),
            s.piece.x == 4,
            s.piece.y == 0,
            s.piece.current_state == 0,
    {
        let board = Board::new();
        let mut generator = Generator::new();
        let kind = generator.draw_next();
        let piece = Tetrimino::new(kind);
        let s = Session { board, piece, generator, score: 0, lines: 0, level: 1, game_over: false };
        proof {
            let sts = s.piece.states.deep_view();
            let g = s.board.cells.deep_view();
            assert forall|dy: int, dx: int|
                0 <= dy < 4 && 0 <= dx < 4 && (#[trigger] sts[0][dy][dx]) != 0
                implies spec_covered_ok(g, 4, 0, dy, dx) by {
                assert(g[0 + dy].len() == BOARD_WIDTH);
                assert(g[0 + dy][4 + dx] == 0);
            }
        }
        s
    }

    /// Applies one player request. While the session is over every request
    /// leaves it untouched; otherwise a horizontal move or soft drop is
    /// exact-or-nothing and a rotation commits the first fitting kick.
    pub fn handle_intent(&mut self, intent: Intent)
        requires
            old(self).wf(),
        ensures
            final(self).wf(),
            old(self).game_over ==> *final(self) == *old(self),
            !old(self).game_over ==> match intent {
                Intent::MoveLeft => spec_move_outcome(*old(self), *final(self), -1, 0),
                Intent::MoveRight => spec_move_outcome(*old(self), *final(self), 1, 0),
                Intent::SoftDrop => spec_move_outcome(*old(self), *final(self), 0, 1),
                Intent::Rotate => spec_rotate_outcome(*old(self), *final(self)),
            },
            final(self).score == old(self).score,
            final(self).lines == old(self).lines,
            final(self).level == old(self).level,
    {
        if self.game_over {
            return;
        }
        proof {
            lemma_legal_piece_bounds(self.piece, self.board);
        }
        let gm = self.board.cells.as_slice();
        proof {
            assert(gm.deep_view() =~= self.board.cells.deep_view());
        }
        match intent {
            Intent::MoveLeft => {
                let _ = self.piece.change_position(gm, self.piece.x - 1, self.piece.y);
            },
            Intent::MoveRight => {
                let _ = self.piece.change_position(gm, self.piece.x + 1, self.piece.y);
            },
            Intent::SoftDrop => {
                let _ = self.piece.change_position(gm, self.piece.x, self.piece.y + 1);
            },
            Intent::Rotate => {
                self.piece.rotate(gm);
            },
        }
    }

    /// One gravity step: the piece falls one row if it can; otherwise it
    /// locks, full rows are cleared as one batch, the totals are updated,
    /// and the next piece spawns — or, if the spawn region is blocked, the
    /// game-over flag is raised. While the session is over the call leaves
    /// it untouched.
    pub fn tick_gravity(&mut self)
        requires
            old(self).wf(),
        ensures
            final(self).wf(),
            old(self).game_over ==> *final(self) == *old(self),
            (!old(self).game_over && spec_can_fall(*old(self))) ==> spec_moved_piece(
                *old(self),
                *final(self),
                old(self).piece.x as int,
                old(self).piece.y + 1,
            ),
            (!old(self).game_over && !spec_can_fall(*old(self))) ==> spec_lock_outcome(
                *old(self),
                *final(self),
            ),
            final(self).score >= old(self).score,
            final(self).lines >= old(self).lines,
            final(self).level >= old(self).level,
    {
        if self.game_over {
            return;
        }
        proof {
            lemma_legal_piece_bounds(self.piece, self.board);
        }
        let gm = self.board.cells.as_slice();
        proof {
            assert(gm.deep_view() =~= self.board.cells.deep_view());
        }
        let moved = self.piece.change_position(gm, self.piece.x, self.piece.y + 1);
        if moved {
            return;
        }
        self.board.write_piece(&self.piece);
        let cleared = self.board.clear_full_rows();
        self.lines = sat_add64(self.lines, cleared as u64);
        proof {
            lemma_div_is_ordered(self.lines as int, u64::MAX as int, 10);
            lemma_div_is_ordered(old(self).lines as int, self.lines as int, 10);
        }
        self.level = 1 + self.lines / 10;
        let delta = score_delta(self.level, cleared);
        self.score = sat_add64(self.score, delta);
        let kind = self.generator.draw_next();
        self.piece = Tetrimino::new(kind);
        let gm2 = self.board.cells.as_slice();
        proof {
            assert(gm2.deep_view() =~= self.board.cells.deep_view());
        }
        let fits = self.piece.test_position(gm2, 0, 4, 0);
        if !fits {
            self.game_over = true;
        }
    }

    /// The board grid, for rendering.
    pub fn board_rows(&self) -> (r: &Vec<Vec<u8>>)
        ensures
            r == &self.board.cells,
    {
        &self.board.cells
    }

    /// The active piece, for rendering.
    pub fn active_piece(&self) -> (r: &Tetrimino)
        ensures
            r == &self.piece,
    {
        &self.piece
    }

    /// The score total.
    pub fn score(&self) -> (r: u64)
        ensures
            r == self.score,
    {
        self.score
    }

    /// The cleared-line total.
    pub fn lines(&self) -> (r: u64)
        ensures
            r == self.lines,
    {
        self.lines
    }

    /// The current level.
    pub fn level(&self) -> (r: u64)
        ensures
            r == self.level,
    {
        self.level
    }

    /// Whether the session has reached the terminal "board full" condition.
    pub fn is_game_over(&self) -> (r: bool)
        ensures
            r == self.game_over,
    {
        self.game_over
    }
}

} // verus!
