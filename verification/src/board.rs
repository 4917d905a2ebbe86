//! The board: a fixed 10x16 grid of cell values, mutated only when a piece
//! locks and full rows are cleared. `0` means an empty cell; a non-zero
//! value is the tag of the piece kind whose block occupies it.

use vstd::prelude::*;
use crate::tetrimino::{Tetrimino, spec_fits, spec_covered_ok};

verus! {

/// Number of columns of the board.
pub const BOARD_WIDTH: usize = 10;

/// Number of rows of the board.
pub const BOARD_HEIGHT: usize = 16;

/// The fixed-size grid of cell values. The shape never changes after
/// creation: always `BOARD_HEIGHT` rows of `BOARD_WIDTH` cells.
pub struct Board {
    pub cells: Vec<Vec<u8>>,
}

/// A row with no empty cell.
pub open spec fn spec_row_full(row: Seq<u8>) -> bool {
    forall|c: int| 0 <= c < row.len() ==> (#[trigger] row[c]) != 0
}

/// A row of `BOARD_WIDTH` empty cells.
pub open spec fn spec_empty_row() -> Seq<u8> {
    Seq::new(BOARD_WIDTH as nat, |c: int| 0u8)
}

/// Every cell of the grid is empty.
pub open spec fn spec_all_empty(g: Seq<Seq<u8>>) -> bool {
    forall|r: int, c: int|
        0 <= r < g.len() && 0 <= c < g[r].len() ==> (#[trigger] g[r][c]) == 0
}

/// The rows of `g` that are not full, in their original order.
pub open spec fn spec_surviving(g: Seq<Seq<u8>>) -> Seq<Seq<u8>>
    decreases g.len(),
{
    if g.len() == 0 {
        Seq::empty()
    } else if spec_row_full(g.last()) {
        spec_surviving(g.drop_last())
    } else {
        spec_surviving(g.drop_last()).push(g.last())
    }
}

/// The number of full rows of `g`.
pub open spec fn spec_count_full(g: Seq<Seq<u8>>) -> int
    decreases g.len(),
{
    if g.len() == 0 {
        0
    } else {
        spec_count_full(g.drop_last()) + if spec_row_full(g.last()) {
            1int
        } else {
            0int
        }
    }
}

/// Frame cell `(r - y, c - x)` of rotation state `st` placed at `(x, y)`
/// covers board cell `(r, c)` with an occupied block.
pub open spec fn spec_piece_covers(
    states: Seq<Seq<Seq<u8>>>,
    st: int,
    x: int,
    y: int,
    r: int,
    c: int,
) -> bool {
    &&& y <= r < y + 4
    &&& x <= c < x + 4
    &&& states[st][r - y][c - x] != 0
}

/// The grid after writing every occupied cell of rotation state `st` at
/// `(x, y)` into `g`; uncovered cells keep their value.
pub open spec fn spec_locked(
    g: Seq<Seq<u8>>,
    states: Seq<Seq<Seq<u8>>>,
    st: int,
    x: int,
    y: int,
) -> Seq<Seq<u8>> {
    Seq::new(
        g.len(),
        |r: int|
            Seq::new(
                g[r].len(),
                |c: int|
                    if spec_piece_covers(states, st, x, y, r, c) {
                        states[st][r - y][c - x]
                    } else {
                        g[r][c]
                    },
            ),
    )
}

/// Surviving rows are no more numerous than the rows of `g`, they all keep
/// the row width `w`, and none of them is full.
pub proof fn lemma_surviving_widths(g: Seq<Seq<u8>>, w: int)
    requires
        forall|r: int| 0 <= r < g.len() ==> (#[trigger] g[r]).len() == w,
    ensures
        spec_surviving(g).len() <= g.len(),
        forall|r: int|
            0 <= r < spec_surviving(g).len() ==> (#[trigger] spec_surviving(g)[r]).len() == w,
        forall|r: int|
            0 <= r < spec_surviving(g).len() ==> !spec_row_full(#[trigger] spec_surviving(g)[r]),
    decreases g.len(),
{
    if g.len() > 0 {
        let h = g.drop_last();
        assert(forall|r: int| 0 <= r < h.len() ==> (#[trigger] h[r]).len() == w);
        lemma_surviving_widths(h, w);
    }
}

/// The full rows and the surviving rows together account for every row.
pub proof fn lemma_surviving_count(g: Seq<Seq<u8>>)
    ensures
        0 <= spec_count_full(g) <= g.len(),
        spec_surviving(g).len() + spec_count_full(g) == g.len(),
    decreases g.len(),
{
    if g.len() > 0 {
        lemma_surviving_count(g.drop_last());
    }
}

/// One step of the row scan: extending the scanned prefix by row `i` keeps
/// the surviving rows and appends row `i` exactly when it is not full.
proof fn lemma_surviving_take_step(g: Seq<Seq<u8>>, i: int)
    requires
        0 <= i < g.len(),
    ensures
        spec_surviving(g.take(i + 1)) == if spec_row_full(g[i]) {
            spec_surviving(g.take(i))
        } else {
            spec_surviving(g.take(i)).push(g[i])
        },
        spec_count_full(g.take(i + 1)) == spec_count_full(g.take(i)) + if spec_row_full(g[i]) {
            1int
        } else {
            0int
        },
{
    let t = g.take(i + 1);
    assert(t.drop_last() =~= g.take(i));
    assert(t.last() == g[i]);
}

/// For a row of cells the deep view and the plain view agree.
proof fn lemma_row_view(v: Vec<u8>)
    ensures
        v.deep_view() == v@,
{
    assert(v.deep_view() =~= v@);
}

/// Copies a row of cells.
fn copy_row(row: &Vec<u8>) -> (out: Vec<u8>)
    ensures
        out@ == row@,
{
    let mut out: Vec<u8> = Vec::new();
    let mut j: usize = 0;
    while j < row.len()
        invariant
            j <= row@.len(),
            out@ == row@.take(j as int),
        decreases row@.len() - j,
    {
        out.push(row[j]);
        proof {
            assert(out@ =~= row@.take(j + 1));
        }
        j += 1;
    }
    proof {
        assert(row@.take(row@.len() as int) =~= row@);
    }
    out
}

/// Builds one empty row.
fn empty_row_vec() -> (out: Vec<u8>)
    ensures
        out@ == spec_empty_row(),
{
    let mut out: Vec<u8> = Vec::new();
    let mut j: usize = 0;
    while j < BOARD_WIDTH
        invariant
            j <= BOARD_WIDTH,
            out@.len() == j,
            forall|c: int| 0 <= c < j ==> (#[trigger] out@[c]) == 0,
        decreases BOARD_WIDTH - j,
    {
        out.push(0);
        j += 1;
    }
    proof {
        assert(out@ =~= spec_empty_row());
    }
    out
}

/// Decides whether a row is full.
fn row_full(row: &Vec<u8>) -> (f: bool)
    ensures
        f == spec_row_full(row@),
{
    let mut j: usize = 0;
    while j < row.len()
        invariant
            j <= row@.len(),
            forall|c: int| 0 <= c < j ==> (#[trigger] row@[c]) != 0,
        decreases row@.len() - j,
    {
        if row[j] == 0 {
            return false;
        }
        j += 1;
    }
    true
}

impl Board {
    /// The grid has exactly `BOARD_HEIGHT` rows of `BOARD_WIDTH` cells.
    pub open spec fn wf(self) -> bool {
        &&& self.cells.deep_view().len() == BOARD_HEIGHT
        &&& forall|r: int|
            0 <= r < BOARD_HEIGHT ==> (#[trigger] self.cells.deep_view()[r]).len() == BOARD_WIDTH
    }

    /// A fresh board: every cell empty.
    pub fn new() -> (b: Board)
        ensures
            b.wf(),
            spec_all_empty(b.cells.deep_view()),
    {
        let mut cells: Vec<Vec<u8>> = Vec::new();
        let mut i: usize = 0;
        while i < BOARD_HEIGHT
            invariant
                i <= BOARD_HEIGHT,
                cells.deep_view().len() == i,
                forall|r: int|
                    0 <= r < i ==> (#[trigger] cells.deep_view()[r]) == spec_empty_row(),
            decreases BOARD_HEIGHT - i,
        {
            let ghost cprev = cells@;
            let ghost cprevd = cells.deep_view();
            let row = empty_row_vec();
            proof {
                lemma_row_view(row);
            }
            cells.push(row);
            proof {
                assert forall|r: int|
                    0 <= r < i + 1 implies (#[trigger] cells.deep_view()[r])
                    == spec_empty_row() by {
                    assert(cells.deep_view()[r] == cells@[r].deep_view());
                    if r < i {
                        assert(cells@[r] == cprev[r]);
                        assert(cprevd[r] == cprev[r].deep_view());
                    }
                }
            }
            i += 1;
        }
        let b = Board { cells };
        proof {
            assert(spec_empty_row().len() == BOARD_WIDTH);
            assert forall|r: int, c: int|
                0 <= r < b.cells.deep_view().len() && 0 <= c < b.cells.deep_view()[r].len()
                implies (#[trigger] b.cells.deep_view()[r][c]) == 0 by {
                assert(b.cells.deep_view()[r] == spec_empty_row());
            }
        }
        b
    }

    /// Locks `piece` into the board: every occupied cell of its current
    /// rotation state is written at its position, using the value stored in
    /// the state frame (the kind's tag). The piece must fit.
    pub fn write_piece(&mut self, piece: &Tetrimino)
        requires
            old(self).wf(),
            piece.wf(),
            piece.x <= isize::MAX - 3,
            piece.y <= usize::MAX - 3,
            spec_fits(
                piece.states.deep_view(),
                old(self).cells.deep_view(),
                piece.current_state as int,
                piece.x as int,
                piece.y as int,
            ),
        ensures
            final(self).wf(),
            final(self).cells.deep_view() == spec_locked(
                old(self).cells.deep_view(),
                piece.states.deep_view(),
                piece.current_state as int,
                piece.x as int,
                piece.y as int,
            ),
    {
        let ghost g0 = self.cells.deep_view();
        let ghost sts = piece.states.deep_view();
        let ghost stc = piece.current_state as int;
        let ghost px = piece.x as int;
        let ghost py = piece.y as int;
        let st = piece.current_state as usize;
        let mut dy: usize = 0;
        while dy < 4
            invariant
                old(self).wf(),
                piece.wf(),
                piece.x <= isize::MAX - 3,
                piece.y <= usize::MAX - 3,
                g0 == old(self).cells.deep_view(),
                sts == piece.states.deep_view(),
                stc == piece.current_state as int,
                px == piece.x as int,
                py == piece.y as int,
                st == piece.current_state as usize,
                spec_fits(sts, g0, stc, px, py),
                dy <= 4,
                self.cells.deep_view().len() == g0.len(),
                forall|r: int|
                    0 <= r < g0.len()
                        ==> (#[trigger] self.cells.deep_view()[r]).len() == g0[r].len(),
                forall|r: int, c: int|
                    0 <= r < g0.len() && 0 <= c < g0[r].len()
                        ==> (#[trigger] self.cells.deep_view()[r][c]) == (
                        if spec_piece_covers(sts, stc, px, py, r, c) && r - py < dy {
                            sts[stc][r - py][c - px]
                        } else {
                            g0[r][c]
                        }),
            decreases 4 - dy,
        {
            let mut dx: usize = 0;
            while dx < 4
                invariant
                    old(self).wf(),
                    piece.wf(),
                    piece.x <= isize::MAX - 3,
                    piece.y <= usize::MAX - 3,
                    g0 == old(self).cells.deep_view(),
                    sts == piece.states.deep_view(),
                    stc == piece.current_state as int,
                    px == piece.x as int,
                    py == piece.y as int,
                    st == piece.current_state as usize,
                    spec_fits(sts, g0, stc, px, py),
                    dy < 4,
                    dx <= 4,
                    self.cells.deep_view().len() == g0.len(),
                    forall|r: int|
                        0 <= r < g0.len()
                            ==> (#[trigger] self.cells.deep_view()[r]).len() == g0[r].len(),
                    forall|r: int, c: int|
                        0 <= r < g0.len() && 0 <= c < g0[r].len()
                            ==> (#[trigger] self.cells.deep_view()[r][c]) == (
                            if spec_piece_covers(sts, stc, px, py, r, c) && (r - py < dy || (r - py
                                == dy && c - px < dx)) {
                                sts[stc][r - py][c - px]
                            } else {
                                g0[r][c]
                            }),
                decreases 4 - dx,
            {
                let ghost prev = self.cells.deep_view();
                let ghost prevv = self.cells@;
                let v = piece.state_cell(st, dy, dx);
                if v != 0 {
                    proof {
                        assert(sts[stc][dy as int][dx as int] != 0);
                        assert(spec_covered_ok(g0, px, py, dy as int, dx as int));
                    }
                    let rr: usize = piece.y + dy;
                    let cc: usize = (piece.x + dx as isize) as usize;
                    proof {
                        assert(self.cells.deep_view()[rr as int]
                            == self.cells@[rr as int].deep_view());
                        assert(self.cells.deep_view()[rr as int].len() == g0[rr as int].len());
                        assert(cc < self.cells@[rr as int]@.len());
                    }
                    self.cells[rr][cc] = v;
                    proof {
                        assert forall|r: int|
                            0 <= r < g0.len()
                            implies (#[trigger] self.cells.deep_view()[r]).len()
                                == g0[r].len() by {
                            assert(self.cells.deep_view()[r] == self.cells@[r].deep_view());
                            if r == rr as int {
                                assert(self.cells@[r]@.len() == prevv[r]@.len());
                            } else {
                                assert(self.cells@[r] == prevv[r]);
                            }
                            assert(prev[r] == prevv[r].deep_view());
                            assert(prev[r].len() == g0[r].len());
                        }
                        assert forall|r: int, c: int|
                            0 <= r < g0.len() && 0 <= c < g0[r].len()
                            implies (#[trigger] self.cells.deep_view()[r][c]) == (
                            if spec_piece_covers(sts, stc, px, py, r, c) && (r - py < dy || (r - py
                                == dy && c - px < dx + 1)) {
                                sts[stc][r - py][c - px]
                            } else {
                                g0[r][c]
                            }) by {
                            assert(self.cells.deep_view()[r] == self.cells@[r].deep_view());
                            assert(prev[r] == prevv[r].deep_view());
                            if r == rr as int {
                                if c == cc as int {
                                    assert(self.cells@[r]@[c] == v);
                                    assert(self.cells.deep_view()[r][c] == v);
                                } else {
                                    assert(self.cells@[r]@[c] == prevv[r]@[c]);
                                    assert(self.cells.deep_view()[r][c] == prev[r][c]);
                                }
                            } else {
                                assert(self.cells@[r] == prevv[r]);
                                assert(self.cells.deep_view()[r][c] == prev[r][c]);
                            }
                        }
                    }
                }
                dx += 1;
            }
            dy += 1;
        }
        proof {
            let locked = spec_locked(g0, sts, stc, px, py);
            assert forall|r: int| 0 <= r < g0.len()
                implies self.cells.deep_view()[r] =~= locked[r] by {
                assert(self.cells.deep_view()[r].len() == g0[r].len());
            }
            assert(self.cells.deep_view() =~= locked);
        }
    }

    /// Removes every full row in one batch: the surviving rows keep their
    /// order and are shifted to the bottom, one fresh empty row enters at
    /// the top per removed row, and the number of removed rows is returned.
    pub fn clear_full_rows(&mut self) -> (n: usize)
        requires
            old(self).wf(),
        ensures
            final(self).wf(),
            n <= BOARD_HEIGHT,
            n as int == spec_count_full(old(self).cells.deep_view()),
            final(self).cells.deep_view() == Seq::new(n as nat, |i: int| spec_empty_row()).add(
                spec_surviving(old(self).cells.deep_view()),
            ),
    {
        let ghost g0 = self.cells.deep_view();
        let mut kept: Vec<Vec<u8>> = Vec::new();
        let mut i: usize = 0;
        while i < BOARD_HEIGHT
            invariant
                self.wf(),
                g0 == self.cells.deep_view(),
                i <= BOARD_HEIGHT,
                kept.deep_view() == spec_surviving(g0.take(i as int)),
            decreases BOARD_HEIGHT - i,
        {
            let ghost kd = kept.deep_view();
            proof {
                assert(g0[i as int] == self.cells@[i as int].deep_view());
                lemma_row_view(self.cells@[i as int]);
            }
            if !row_full(&self.cells[i]) {
                let row = copy_row(&self.cells[i]);
                proof {
                    lemma_row_view(row);
                }
                kept.push(row);
                proof {
                    assert(kept.deep_view() =~= kd.push(g0[i as int]));
                }
            }
            proof {
                lemma_surviving_take_step(g0, i as int);
            }
            i += 1;
        }
        proof {
            assert(g0.take(BOARD_HEIGHT as int) =~= g0);
            lemma_surviving_count(g0);
            lemma_surviving_widths(g0, BOARD_WIDTH as int);
        }
        let n: usize = BOARD_HEIGHT - kept.len();
        let mut cells: Vec<Vec<u8>> = Vec::new();
        let mut j: usize = 0;
        while j < n
            invariant
                j <= n,
                cells.deep_view().len() == j,
                forall|r: int|
                    0 <= r < j ==> (#[trigger] cells.deep_view()[r]) == spec_empty_row(),
            decreases n - j,
        {
            let ghost cprev = cells@;
            let ghost cprevd = cells.deep_view();
            let row = empty_row_vec();
            proof {
                lemma_row_view(row);
            }
            cells.push(row);
            proof {
                assert forall|r: int|
                    0 <= r < j + 1 implies (#[trigger] cells.deep_view()[r])
                    == spec_empty_row() by {
                    assert(cells.deep_view()[r] == cells@[r].deep_view());
                    if r < j {
                        assert(cells@[r] == cprev[r]);
                        assert(cprevd[r] == cprev[r].deep_view());
                    }
                }
            }
            j += 1;
        }
        let ghost empties = cells.deep_view();
        proof {
            assert(empties =~= Seq::new(n as nat, |i: int| spec_empty_row()));
        }
        let mut k: usize = 0;
        while k < kept.len()
            invariant
                k <= kept.deep_view().len(),
                empties == Seq::new(n as nat, |i: int| spec_empty_row()),
                kept.deep_view() == spec_surviving(g0),
                cells.deep_view() == empties.add(kept.deep_view().take(k as int)),
            decreases kept.deep_view().len() - k,
        {
            let ghost cd = cells.deep_view();
            let ghost cprev = cells@;
            let row = copy_row(&kept[k]);
            let ghost rowd = row.deep_view();
            proof {
                assert(kept.deep_view()[k as int] == kept@[k as int].deep_view());
                lemma_row_view(kept@[k as int]);
                lemma_row_view(row);
                assert(rowd == kept.deep_view()[k as int]);
            }
            cells.push(row);
            proof {
                assert(empties.len() == n as int);
                assert(kept.deep_view().take(k as int).len() == k as int);
                assert(kept.deep_view().take(k + 1).len() == k + 1);
                assert(cd.len() == empties.len() + k);
                assert(cprev.len() == cd.len());
                assert(cells@.len() == cprev.len() + 1);
                assert forall|r: int|
                    0 <= r < cells@.len() implies (#[trigger] cells.deep_view()[r]) == empties.add(
                    kept.deep_view().take(k + 1),
                )[r] by {
                    assert(cells.deep_view()[r] == cells@[r].deep_view());
                    if r < cprev.len() {
                        assert(cells@[r] == cprev[r]);
                        assert(cd[r] == cprev[r].deep_view());
                        assert(cd[r] == empties.add(kept.deep_view().take(k as int))[r]);
                    } else {
                        assert(r == cprev.len());
                        assert(cells@[r].deep_view() == rowd);
                        assert(empties.add(kept.deep_view().take(k + 1))[r]
                            == kept.deep_view().take(k + 1)[r - empties.len()]);
                        assert(r - empties.len() == k as int);
                    }
                }
                assert(cells.deep_view() =~= empties.add(kept.deep_view().take(k + 1)));
            }
            k += 1;
        }
        proof {
            assert(kept.deep_view().take(kept.deep_view().len() as int) =~= kept.deep_view());
        }
        self.cells = cells;
        n
    }
}

} // verus!
