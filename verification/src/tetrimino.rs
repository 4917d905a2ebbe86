//! The active piece and the placement engine: legality testing against a
//! board grid, exact-or-nothing movement, and rotation with a horizontal
//! wall-kick search.

use vstd::prelude::*;
use crate::shapes::{PieceKind, spec_kind_states, states_wf, kind_states, lemma_catalog_wf};

verus! {

/// The active piece: its kind's rotation states, its position on the board
/// (`x`, `y` locate the top-left corner of the 4x4 frame; `x` may be
/// negative while every occupied cell still lies on the board), and the
/// index of the current rotation state.
pub struct Tetrimino {
    pub states: Vec<Vec<Vec<u8>>>,
    pub x: isize,
    pub y: usize,
    pub current_state: u8,
}

/// Cell `(dy, dx)` of a piece frame placed at `(x, y)` lands on an existing,
/// empty board cell: the row exists, the column is within that row, and the
/// cell value is `0`.
pub open spec fn spec_covered_ok(map: Seq<Seq<u8>>, x: int, y: int, dy: int, dx: int) -> bool {
    &&& y + dy < map.len()
    &&& 0 <= x + dx
    &&& x + dx < map[y + dy].len()
    &&& map[y + dy][x + dx] == 0
}

/// The legality test: every occupied cell of rotation state `st`, placed at
/// `(x, y)`, lands on an existing empty board cell. Evaluated over the full
/// 4x4 frame regardless of the state's true footprint.
pub open spec fn spec_fits(
    states: Seq<Seq<Seq<u8>>>,
    map: Seq<Seq<u8>>,
    st: int,
    x: int,
    y: int,
) -> bool {
    forall|dy: int, dx: int|
        0 <= dy < 4 && 0 <= dx < 4 && (#[trigger] states[st][dy][dx]) != 0
            ==> spec_covered_ok(map, x, y, dy, dx)
}

/// The horizontal offsets a rotation attempts, in precedence order.
pub open spec fn spec_kick_offsets() -> Seq<int> {
    seq![0, -1, 1, -2, 2, -3]
}

impl Tetrimino {
    /// The state table is a well-formed catalog entry and the current state
    /// index is valid.
    pub open spec fn wf(self) -> bool {
        &&& states_wf(self.states.deep_view())
        &&& (self.current_state as int) < self.states.deep_view().len()
    }

    /// The rotation state a rotation moves to: the next index, wrapping to 0
    /// past the end of the sequence.
    pub open spec fn next_state_index(self) -> int {
        if self.current_state + 1 < self.states.deep_view().len() {
            self.current_state + 1
        } else {
            0
        }
    }

    /// The piece fits at kick offset `i` of the rotated state: the next
    /// rotation state, shifted horizontally by the `i`-th offset, is legal.
    pub open spec fn spec_kick_fits(self, map: Seq<Seq<u8>>, i: int) -> bool {
        spec_fits(
            self.states.deep_view(),
            map,
            self.next_state_index(),
            self.x + spec_kick_offsets()[i],
            self.y as int,
        )
    }

    /// A fresh piece of kind `kind` at the spawn position: top area,
    /// horizontally centered, in its first rotation state.
    pub fn new(kind: PieceKind) -> (t: Tetrimino)
        ensures
            t.wf(),
            t.states.deep_view() == spec_kind_states(kind),
            t.x == 4,
            t.y == 0,
            t.current_state == 0,
    {
        let states = kind_states(kind);
        proof {
            lemma_catalog_wf(kind);
        }
        Tetrimino { states, x: 4, y: 0, current_state: 0 }
    }

    /// Reads cell `(dy, dx)` of rotation state `st` of this piece's frame.
    pub fn state_cell(&self, st: usize, dy: usize, dx: usize) -> (v: u8)
        requires
            self.wf(),
            st < self.states.deep_view().len(),
            dy < 4,
            dx < 4,
        ensures
            v == self.states.deep_view()[st as int][dy as int][dx as int],
    {
        proof {
            let sts = self.states.deep_view();
            assert(sts.len() == self.states@.len());
            assert(sts[st as int] == self.states@[st as int].deep_view());
            assert(sts[st as int].len() == self.states@[st as int]@.len());
            assert(sts[st as int][dy as int] == self.states@[st as int]@[dy as int].deep_view());
            assert(sts[st as int][dy as int].len()
                == self.states@[st as int]@[dy as int]@.len());
        }
        self.states[st][dy][dx]
    }

    /// Legality test for rotation state `tmp_state` at `(x, y)` against
    /// `game_map`. Returns exactly `spec_fits` there.
    pub fn test_position(
        &self,
        game_map: &[Vec<u8>],
        tmp_state: usize,
        x: isize,
        y: usize,
    ) -> (r: bool)
        requires
            self.wf(),
            tmp_state < self.states.deep_view().len(),
            x <= isize::MAX - 3,
            y <= usize::MAX - 3,
        ensures
            r == spec_fits(
                self.states.deep_view(),
                game_map.deep_view(),
                tmp_state as int,
                x as int,
                y as int,
            ),
    {
        let ghost sts = self.states.deep_view();
        let ghost m = game_map.deep_view();
        let mut dy: usize = 0;
        while dy < 4
            invariant
                self.wf(),
                tmp_state < sts.len(),
                x <= isize::MAX - 3,
                y <= usize::MAX - 3,
                sts == self.states.deep_view(),
                m == game_map.deep_view(),
                dy <= 4,
                forall|py: int, px: int|
                    0 <= py < dy && 0 <= px < 4 && (#[trigger] sts[tmp_state as int][py][px]) != 0
                        ==> spec_covered_ok(m, x as int, y as int, py, px),
            decreases 4 - dy,
        {
            let mut dx: usize = 0;
            while dx < 4
                invariant
                    self.wf(),
                    tmp_state < sts.len(),
                    x <= isize::MAX - 3,
                    y <= usize::MAX - 3,
                    sts == self.states.deep_view(),
                    m == game_map.deep_view(),
                    dy < 4,
                    dx <= 4,
                    forall|py: int, px: int|
                        0 <= py < dy && 0 <= px < 4
                            && (#[trigger] sts[tmp_state as int][py][px]) != 0
                            ==> spec_covered_ok(m, x as int, y as int, py, px),
                    forall|px: int|
                        0 <= px < dx && (#[trigger] sts[tmp_state as int][dy as int][px]) != 0
                            ==> spec_covered_ok(m, x as int, y as int, dy as int, px),
                decreases 4 - dx,
            {
                let cx: isize = x + dx as isize;
                proof {
                    assert(sts.len() == self.states@.len());
                    assert(sts[tmp_state as int] == self.states@[tmp_state as int].deep_view());
                    assert(sts[tmp_state as int].len() == self.states@[tmp_state as int]@.len());
                    assert(sts[tmp_state as int][dy as int]
                        == self.states@[tmp_state as int]@[dy as int].deep_view());
                    assert(sts[tmp_state as int][dy as int].len()
                        == self.states@[tmp_state as int]@[dy as int]@.len());
                }
                if self.states[tmp_state][dy][dx] != 0 {
                    proof {
                        assert(sts[tmp_state as int] == self.states@[tmp_state as int].deep_view());
                        assert(sts[tmp_state as int][dy as int]
                            == self.states@[tmp_state as int]@[dy as int].deep_view());
                        assert(sts[tmp_state as int][dy as int][dx as int] != 0);
                    }
                    if y + dy >= game_map.len() {
                        proof {
                            assert(!spec_covered_ok(m, x as int, y as int, dy as int, dx as int));
                            assert(!spec_fits(sts, m, tmp_state as int, x as int, y as int));
                        }
                        return false;
                    }
                    proof {
                        assert(m[y + dy] == game_map@[y + dy].deep_view());
                    }
                    if cx < 0 {
                        proof {
                            assert(!spec_covered_ok(m, x as int, y as int, dy as int, dx as int));
                            assert(!spec_fits(sts, m, tmp_state as int, x as int, y as int));
                        }
                        return false;
                    }
                    if cx as usize >= game_map[y + dy].len() {
                        proof {
                            assert(!spec_covered_ok(m, x as int, y as int, dy as int, dx as int));
                            assert(!spec_fits(sts, m, tmp_state as int, x as int, y as int));
                        }
                        return false;
                    }
                    if game_map[y + dy][cx as usize] != 0 {
                        proof {
                            assert(m[y + dy][x + dx] != 0);
                            assert(!spec_covered_ok(m, x as int, y as int, dy as int, dx as int));
                            assert(!spec_fits(sts, m, tmp_state as int, x as int, y as int));
                        }
                        return false;
                    }
                    proof {
                        assert(spec_covered_ok(m, x as int, y as int, dy as int, dx as int));
                    }
                }
                dx += 1;
            }
            dy += 1;
        }
        true
    }

    /// Exact-or-nothing movement: if the current rotation state is legal at
    /// `(new_x, new_y)`, commit exactly those coordinates and return `true`;
    /// otherwise leave the piece untouched and return `false`.
    pub fn change_position(
        &mut self,
        game_map: &[Vec<u8>],
        new_x: isize,
        new_y: usize,
    ) -> (r: bool)
        requires
            old(self).wf(),
            new_x <= isize::MAX - 3,
            new_y <= usize::MAX - 3,
        ensures
            final(self).wf(),
            r == spec_fits(
                old(self).states.deep_view(),
                game_map.deep_view(),
                old(self).current_state as int,
                new_x as int,
                new_y as int,
            ),
            r ==> final(self).x == new_x && final(self).y == new_y
                && final(self).states == old(self).states
                && final(self).current_state == old(self).current_state,
            !r ==> *final(self) == *old(self),
    {
        if self.test_position(game_map, self.current_state as usize, new_x, new_y) {
            self.x = new_x;
            self.y = new_y;
            true
        } else {
            false
        }
    }

    /// Rotation with a horizontal wall kick: advance to the next rotation
    /// state (wrapping), trying the horizontal offsets `0, -1, +1, -2, +2,
    /// -3` in that order, committing the state and the shifted `x` at the
    /// first offset that fits. If none fits, the piece is left unchanged.
    pub fn rotate(&mut self, game_map: &[Vec<u8>])
        requires
            old(self).wf(),
            isize::MIN + 3 <= old(self).x,
            old(self).x <= isize::MAX - 6,
            old(self).y <= usize::MAX - 3,
        ensures
            final(self).wf(),
            final(self).states == old(self).states,
            final(self).y == old(self).y,
            (forall|i: int| 0 <= i < 6 ==> !old(self).spec_kick_fits(game_map.deep_view(), i))
                ==> *final(self) == *old(self),
            (exists|i: int| 0 <= i < 6 && old(self).spec_kick_fits(game_map.deep_view(), i))
                ==> exists|j: int|
                    {
                        &&& 0 <= j < 6
                        &&& old(self).spec_kick_fits(game_map.deep_view(), j)
                        &&& forall|i: int|
                            0 <= i < j ==> !old(self).spec_kick_fits(game_map.deep_view(), i)
                        &&& final(self).current_state == old(self).next_state_index()
                        &&& final(self).x == old(self).x + spec_kick_offsets()[j]
                    },
    {
        let ghost orig = *self;
        let ghost m = game_map.deep_view();
        let mut tmp_state: u8 = self.current_state + 1;
        if tmp_state as usize >= self.states.len() {
            tmp_state = 0;
        }
        assert(tmp_state as int == orig.next_state_index());
        let mut k: usize = 0;
        while k < 6
            invariant
                *self == orig,
                orig == *old(self),
                orig.wf(),
                isize::MIN + 3 <= orig.x,
                orig.x <= isize::MAX - 6,
                orig.y <= usize::MAX - 3,
                tmp_state as int == orig.next_state_index(),
                m == game_map.deep_view(),
                k <= 6,
                forall|i: int| 0 <= i < k ==> !orig.spec_kick_fits(m, i),
            decreases 6 - k,
        {
            let off = kick_offset(k);
            if self.test_position(game_map, tmp_state as usize, self.x + off, self.y) {
                self.current_state = tmp_state;
                self.x = self.x + off;
                proof {
                    assert(orig.spec_kick_fits(m, k as int));
                }
                return;
            }
            k += 1;
        }
    }
}

/// A placement is illegal as soon as any single occupied frame cell lands
/// outside the board horizontally, at or below the bottom, or on an occupied
/// cell: one bad cell refutes the whole legality test.
pub proof fn lemma_fits_needs_every_cell(
    states: Seq<Seq<Seq<u8>>>,
    map: Seq<Seq<u8>>,
    st: int,
    x: int,
    y: int,
    dy: int,
    dx: int,
)
    requires
        0 <= dy < 4,
        0 <= dx < 4,
        states[st][dy][dx] != 0,
        !spec_covered_ok(map, x, y, dy, dx),
    ensures
        !spec_fits(states, map, st, x, y),
{
}

/// The `k`-th wall-kick offset, matching `spec_kick_offsets`.
fn kick_offset(k: usize) -> (o: isize)
    requires
        k < 6,
    ensures
        o as int == spec_kick_offsets()[k as int],
        -3 <= o <= 2,
{
    match k {
        0 => 0,
        1 => -1,
        2 => 1,
        3 => -2,
        4 => 2,
        _ => -3,
    }
}

} // verus!
