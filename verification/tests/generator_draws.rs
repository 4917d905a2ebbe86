use tetris_engine::generator::{Generator, resolve_draw, NO_PREVIOUS};
use tetris_engine::shapes::kind_from_index;

#[test]
fn resolve_accepts_first_sample_when_it_differs() {
    assert_eq!(resolve_draw(NO_PREVIOUS, 3, 5), 3);
    assert_eq!(resolve_draw(0, 3, 5), 3);
    assert_eq!(resolve_draw(3, 10, 9), 2); // 10 % 7 == 3 repeats, 9 % 7 == 2
}

#[test]
fn resolve_accepts_the_retry_unconditionally() {
    // Both samples reduce to the previous kind: the repeat stands.
    assert_eq!(resolve_draw(2, 16, 9), 2); // 16 % 7 == 2, 9 % 7 == 2
}

#[test]
fn first_draw_never_resamples() {
    // Against the sentinel the first sample is always accepted.
    for first in 0u8..=255 {
        assert_eq!(resolve_draw(NO_PREVIOUS, first, 0), first % 7);
    }
}

#[test]
fn every_draw_returns_a_valid_kind_and_updates_memory() {
    let mut g = Generator::new();
    assert_eq!(g.prev, NO_PREVIOUS);
    for _ in 0..1000 {
        let k = g.draw_next();
        assert!(g.prev < 7);
        assert_eq!(k, kind_from_index(g.prev));
    }
}

#[test]
fn triple_repeats_stay_within_the_single_retry_bound() {
    let mut g = Generator::new();
    let mut kinds = Vec::new();
    for _ in 0..3000 {
        kinds.push(g.draw_next());
    }
    let mut triples = 0;
    for i in 2..kinds.len() {
        if kinds[i] == kinds[i - 1] && kinds[i - 1] == kinds[i - 2] {
            triples += 1;
        }
    }
    // A run of three needs two consecutive double hits, each about 1 in 49:
    // roughly one or two in 3000 draws. Far more would mean the retry
    // policy is not applied.
    assert!(triples < 50, "saw {} runs of three in 3000 draws", triples);
}
