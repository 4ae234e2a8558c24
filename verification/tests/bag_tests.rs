use tetris_core::piece::PieceKind;
use tetris_core::piece::kind_index;
use tetris_core::shuffle_bag::ShuffleBag;

fn draw_batch(bag: &mut ShuffleBag) -> [bool; 7] {
    let mut seen = [false; 7];
    for _ in 0..7 {
        let k = bag.get_piece();
        let i = kind_index(k);
        assert!(!seen[i], "kind {k:?} repeated within one batch of seven");
        seen[i] = true;
    }
    seen
}

#[test]
fn seven_draws_from_empty_bag_cover_every_kind() {
    let mut bag = ShuffleBag::new();
    let seen = draw_batch(&mut bag);
    assert!(seen.iter().all(|s| *s));
}

#[test]
fn each_following_batch_of_seven_covers_every_kind() {
    let mut bag = ShuffleBag::new();
    for _ in 0..5 {
        let seen = draw_batch(&mut bag);
        assert!(seen.iter().all(|s| *s));
    }
}

#[test]
fn bag_is_never_empty_after_a_draw() {
    let mut bag = ShuffleBag::new();
    for _ in 0..20 {
        let _ = bag.get_piece();
        assert!(!bag.pieces.is_empty());
    }
}

#[test]
fn peek_matches_the_next_draw() {
    let mut bag = ShuffleBag::new();
    let _ = bag.get_piece();
    for _ in 0..20 {
        let next: PieceKind = bag.peek();
        assert_eq!(bag.get_piece(), next);
    }
}
