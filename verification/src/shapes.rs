//! Shape catalog: the seven piece kinds, each with its ordered sequence of
//! rotation states. Every state is encoded on a uniform 4x4 frame of cell
//! values; `0` means no block, a non-zero value is the kind's tag (the value
//! stored into the board when the piece locks, used by a renderer to pick a
//! color).

use vstd::prelude::*;

verus! {

/// One of the seven tetromino kinds.
#[derive(Clone, Copy, PartialEq, Eq, Structural, Debug)]
pub enum PieceKind {
    I,
    J,
    L,
    O,
    S,
    Z,
    T,
}

/// The non-zero cell value that marks a locked block of kind `k`.
pub open spec fn spec_kind_tag(k: PieceKind) -> u8 {
    match k {
        PieceKind::I => 1,
        PieceKind::J => 2,
        PieceKind::L => 3,
        PieceKind::O => 4,
        PieceKind::S => 5,
        PieceKind::Z => 6,
        PieceKind::T => 7,
    }
}

/// The kind drawn for a generator index in `0..7`, in the generator's order.
pub open spec fn spec_kind_of_index(i: int) -> PieceKind {
    if i == 0 {
        PieceKind::I
    } else if i == 1 {
        PieceKind::J
    } else if i == 2 {
        PieceKind::L
    } else if i == 3 {
        PieceKind::O
    } else if i == 4 {
        PieceKind::S
    } else if i == 5 {
        PieceKind::Z
    } else {
        PieceKind::T
    }
}

/// The ordered rotation states of kind `k`, each a 4x4 frame of cell values.
/// Non-zero cells hold the kind's tag. O has one distinct state, I/S/Z have
/// two, J/L/T have four.
pub open spec fn spec_kind_states(k: PieceKind) -> Seq<Seq<Seq<u8>>> {
    match k {
        PieceKind::I => seq![
            seq![seq![1u8, 1, 1, 1], seq![0u8, 0, 0, 0], seq![0u8, 0, 0, 0], seq![0u8, 0, 0, 0]],
            seq![seq![1u8, 0, 0, 0], seq![1u8, 0, 0, 0], seq![1u8, 0, 0, 0], seq![1u8, 0, 0, 0]],
        ],
        PieceKind::J => seq![
            seq![seq![2u8, 2, 2, 0], seq![0u8, 0, 2, 0], seq![0u8, 0, 0, 0], seq![0u8, 0, 0, 0]],
            seq![seq![0u8, 2, 0, 0], seq![0u8, 2, 0, 0], seq![2u8, 2, 0, 0], seq![0u8, 0, 0, 0]],
            seq![seq![2u8, 0, 0, 0], seq![2u8, 2, 2, 0], seq![0u8, 0, 0, 0], seq![0u8, 0, 0, 0]],
            seq![seq![2u8, 2, 0, 0], seq![2u8, 0, 0, 0], seq![2u8, 0, 0, 0], seq![0u8, 0, 0, 0]],
        ],
        PieceKind::L => seq![
            seq![seq![3u8, 3, 3, 0], seq![3u8, 0, 0, 0], seq![0u8, 0, 0, 0], seq![0u8, 0, 0, 0]],
            seq![seq![3u8, 3, 0, 0], seq![0u8, 3, 0, 0], seq![0u8, 3, 0, 0], seq![0u8, 0, 0, 0]],
            seq![seq![0u8, 0, 3, 0], seq![3u8, 3, 3, 0], seq![0u8, 0, 0, 0], seq![0u8, 0, 0, 0]],
            seq![seq![3u8, 0, 0, 0], seq![3u8, 0, 0, 0], seq![3u8, 3, 0, 0], seq![0u8, 0, 0, 0]],
        ],
        PieceKind::O => seq![
            seq![seq![4u8, 4, 0, 0], seq![4u8, 4, 0, 0], seq![0u8, 0, 0, 0], seq![0u8, 0, 0, 0]],
        ],
        PieceKind::S => seq![
            seq![seq![0u8, 5, 5, 0], seq![5u8, 5, 0, 0], seq![0u8, 0, 0, 0], seq![0u8, 0, 0, 0]],
            seq![seq![0u8, 5, 0, 0], seq![0u8, 5, 5, 0], seq![0u8, 0, 5, 0], seq![0u8, 0, 0, 0]],
        ],
        PieceKind::Z => seq![
            seq![seq![6u8, 6, 0, 0], seq![0u8, 6, 6, 0], seq![0u8, 0, 0, 0], seq![0u8, 0, 0, 0]],
            seq![seq![0u8, 0, 6, 0], seq![0u8, 6, 6, 0], seq![0u8, 6, 0, 0], seq![0u8, 0, 0, 0]],
        ],
        PieceKind::T => seq![
            seq![seq![7u8, 7, 7, 0], seq![0u8, 7, 0, 0], seq![0u8, 0, 0, 0], seq![0u8, 0, 0, 0]],
            seq![seq![0u8, 7, 0, 0], seq![7u8, 7, 0, 0], seq![0u8, 7, 0, 0], seq![0u8, 0, 0, 0]],
            seq![seq![0u8, 7, 0, 0], seq![7u8, 7, 7, 0], seq![0u8, 0, 0, 0], seq![0u8, 0, 0, 0]],
            seq![seq![0u8, 7, 0, 0], seq![0u8, 7, 7, 0], seq![0u8, 7, 0, 0], seq![0u8, 0, 0, 0]],
        ],
    }
}

/// A rotation state has at least one occupied cell.
pub open spec fn state_has_block(st: Seq<Seq<u8>>) -> bool {
    exists|r: int, c: int| 0 <= r < 4 && 0 <= c < 4 && (#[trigger] st[r][c]) != 0
}

/// Well-formedness of a state table: between one and four states, each a 4x4
/// frame with at least one occupied cell.
pub open spec fn states_wf(s: Seq<Seq<Seq<u8>>>) -> bool {
    &&& 1 <= s.len() <= 4
    &&& forall|i: int| 0 <= i < s.len() ==> (#[trigger] s[i]).len() == 4
    &&& forall|i: int, r: int|
        0 <= i < s.len() && 0 <= r < 4 ==> (#[trigger] s[i][r]).len() == 4
    &&& forall|i: int| 0 <= i < s.len() ==> state_has_block(#[trigger] s[i])
}

/// Every catalog entry is well formed, and its non-zero cells all hold the
/// kind's tag.
pub proof fn lemma_catalog_wf(k: PieceKind)
    ensures
        states_wf(spec_kind_states(k)),
        forall|i: int, r: int, c: int|
            0 <= i < spec_kind_states(k).len() && 0 <= r < 4 && 0 <= c < 4 ==> {
                let v = #[trigger] spec_kind_states(k)[i][r][c];
                v == 0 || v == spec_kind_tag(k)
            },
{
    let s = spec_kind_states(k);
    match k {
        PieceKind::I => {
            assert(s[0][0][0] != 0);
            assert(s[1][0][0] != 0);
        },
        PieceKind::J => {
            assert(s[0][0][0] != 0);
            assert(s[1][0][1] != 0);
            assert(s[2][0][0] != 0);
            assert(s[3][0][0] != 0);
        },
        PieceKind::L => {
            assert(s[0][0][0] != 0);
            assert(s[1][0][0] != 0);
            assert(s[2][0][2] != 0);
            assert(s[3][0][0] != 0);
        },
        PieceKind::O => {
            assert(s[0][0][0] != 0);
        },
        PieceKind::S => {
            assert(s[0][0][1] != 0);
            assert(s[1][0][1] != 0);
        },
        PieceKind::Z => {
            assert(s[0][0][0] != 0);
            assert(s[1][0][2] != 0);
        },
        PieceKind::T => {
            assert(s[0][0][0] != 0);
            assert(s[1][0][1] != 0);
            assert(s[2][0][1] != 0);
            assert(s[3][0][1] != 0);
        },
    }
}

/// Builds the state table of kind `k` as runtime data matching the catalog.
pub fn kind_states(k: PieceKind) -> (v: Vec<Vec<Vec<u8>>>)
    ensures
        v.deep_view() == spec_kind_states(k),
{
    let v: Vec<Vec<Vec<u8>>> = match k {
        PieceKind::I => vec![
            vec![vec![1u8, 1, 1, 1], vec![0u8, 0, 0, 0], vec![0u8, 0, 0, 0], vec![0u8, 0, 0, 0]],
            vec![vec![1u8, 0, 0, 0], vec![1u8, 0, 0, 0], vec![1u8, 0, 0, 0], vec![1u8, 0, 0, 0]],
        ],
        PieceKind::J => vec![
            vec![vec![2u8, 2, 2, 0], vec![0u8, 0, 2, 0], vec![0u8, 0, 0, 0], vec![0u8, 0, 0, 0]],
            vec![vec![0u8, 2, 0, 0], vec![0u8, 2, 0, 0], vec![2u8, 2, 0, 0], vec![0u8, 0, 0, 0]],
            vec![vec![2u8, 0, 0, 0], vec![2u8, 2, 2, 0], vec![0u8, 0, 0, 0], vec![0u8, 0, 0, 0]],
            vec![vec![2u8, 2, 0, 0], vec![2u8, 0, 0, 0], vec![2u8, 0, 0, 0], vec![0u8, 0, 0, 0]],
        ],
        PieceKind::L => vec![
            vec![vec![3u8, 3, 3, 0], vec![3u8, 0, 0, 0], vec![0u8, 0, 0, 0], vec![0u8, 0, 0, 0]],
            vec![vec![3u8, 3, 0, 0], vec![0u8, 3, 0, 0], vec![0u8, 3, 0, 0], vec![0u8, 0, 0, 0]],
            vec![vec![0u8, 0, 3, 0], vec![3u8, 3, 3, 0], vec![0u8, 0, 0, 0], vec![0u8, 0, 0, 0]],
            vec![vec![3u8, 0, 0, 0], vec![3u8, 0, 0, 0], vec![3u8, 3, 0, 0], vec![0u8, 0, 0, 0]],
        ],
        PieceKind::O => vec![
            vec![vec![4u8, 4, 0, 0], vec![4u8, 4, 0, 0], vec![0u8, 0, 0, 0], vec![0u8, 0, 0, 0]],
        ],
        PieceKind::S => vec![
            vec![vec![0u8, 5, 5, 0], vec![5u8, 5, 0, 0], vec![0u8, 0, 0, 0], vec![0u8, 0, 0, 0]],
            vec![vec![0u8, 5, 0, 0], vec![0u8, 5, 5, 0], vec![0u8, 0, 5, 0], vec![0u8, 0, 0, 0]],
        ],
        PieceKind::Z => vec![
            vec![vec![6u8, 6, 0, 0], vec![0u8, 6, 6, 0], vec![0u8, 0, 0, 0], vec![0u8, 0, 0, 0]],
            vec![vec![0u8, 0, 6, 0], vec![0u8, 6, 6, 0], vec![0u8, 6, 0, 0], vec![0u8, 0, 0, 0]],
        ],
        PieceKind::T => vec![
            vec![vec![7u8, 7, 7, 0], vec![0u8, 7, 0, 0], vec![0u8, 0, 0, 0], vec![0u8, 0, 0, 0]],
            vec![vec![0u8, 7, 0, 0], vec![7u8, 7, 0, 0], vec![0u8, 7, 0, 0], vec![0u8, 0, 0, 0]],
            vec![vec![0u8, 7, 0, 0], vec![7u8, 7, 7, 0], vec![0u8, 0, 0, 0], vec![0u8, 0, 0, 0]],
            vec![vec![0u8, 7, 0, 0], vec![0u8, 7, 7, 0], vec![0u8, 7, 0, 0], vec![0u8, 0, 0, 0]],
        ],
    };
    proof {
        assert(v.deep_view() =~~= spec_kind_states(k));
    }
    v
}

pub fn kind_tag(k: PieceKind) -> (t: u8)
    ensures
        t == spec_kind_tag(k),
{
    match k {
        PieceKind::I => 1,
        PieceKind::J => 2,
        PieceKind::L => 3,
        PieceKind::O => 4,
        PieceKind::S => 5,
        PieceKind::Z => 6,
        PieceKind::T => 7,
    }
}

pub fn kind_from_index(i: u8) -> (k: PieceKind)
    requires
        i < 7,
    ensures
        k == spec_kind_of_index(i as int),
{
    match i {
        0 => PieceKind::I,
        1 => PieceKind::J,
        2 => PieceKind::L,
        3 => PieceKind::O,
        4 => PieceKind::S,
        5 => PieceKind::Z,
        _ => PieceKind::T,
    }
}

} // verus!
