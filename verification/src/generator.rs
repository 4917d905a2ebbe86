//! The piece generator: draws a kind uniformly at random, resampling exactly
//! once when the draw repeats the previously drawn kind. The single retry
//! caps the chance of long runs of one kind without a shuffled-bag scheme; a
//! repeat after the retry is accepted, a documented residual possibility.

use vstd::prelude::*;
use crate::shapes::{PieceKind, spec_kind_of_index, kind_from_index};

verus! {

/// Sentinel for "no previous draw": a value outside the valid kind range
/// `0..7`, so the first draw is never forced to resample.
pub const NO_PREVIOUS: u8 = 7;

/// Draws piece kinds, remembering the single most recently drawn kind for
/// the lifetime of the generator.
pub struct Generator {
    pub prev: u8,
}

/// The kind index the draw policy settles on: the first sample reduced
/// modulo seven, unless that repeats the previous kind, in which case the
/// reduced second sample is accepted unconditionally.
pub open spec fn spec_resolve(prev: u8, first: u8, second: u8) -> u8 {
    if first % 7 != prev {
        first % 7
    } else {
        second % 7
    }
}

/// Decides a draw from the previous kind index and two raw byte samples.
pub fn resolve_draw(prev: u8, first: u8, second: u8) -> (r: u8)
    ensures
        r == spec_resolve(prev, first, second),
        r < 7,
{
    let f = first % 7;
    if f != prev {
        f
    } else {
        second % 7
    }
}

/// A run of three equal kinds needs both samples of the third draw to hit
/// the previous kind: the policy repeats it only if the first sample and
/// the retry both reduce to it.
pub proof fn lemma_repeat_needs_double_hit(prev: u8, first: u8, second: u8)
    ensures
        spec_resolve(prev, first, second) == prev ==> first % 7 == prev && second % 7 == prev,
{
}

/// The very first draw succeeds without a previous kind: against the
/// sentinel the policy always accepts the first sample.
pub proof fn lemma_first_draw_accepts_first_sample(first: u8, second: u8)
    ensures
        spec_resolve(NO_PREVIOUS, first, second) == first % 7,
{
}

/// Relies on rand::random: one byte from the thread-local generator.
/// Nothing is assumed of the value.
#[verifier::external_body]
fn random_byte() -> u8 {
    rand::random::<u8>()
}

impl Generator {
    /// The remembered kind index is a valid kind or the sentinel.
    pub open spec fn wf(self) -> bool {
        self.prev <= NO_PREVIOUS
    }

    /// A fresh generator with no previous draw.
    pub fn new() -> (g: Generator)
        ensures
            g.wf(),
            g.prev == NO_PREVIOUS,
    {
        Generator { prev: NO_PREVIOUS }
    }

    /// Draws the next piece kind: sample, retry exactly once on a repeat of
    /// the previous kind, accept the retry unconditionally, and remember
    /// the result. Total: every call returns a valid kind.
    pub fn draw_next(&mut self) -> (k: PieceKind)
        ensures
            final(self).wf(),
            final(self).prev < 7,
            k == spec_kind_of_index(final(self).prev as int),
    {
        let first = random_byte();
        let second = random_byte();
        let idx = resolve_draw(self.prev, first, second);
        self.prev = idx;
        kind_from_index(idx)
    }
}

} // verus!
