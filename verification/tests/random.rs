use rand::seq::SliceRandom;
use rand::{Rng, SeedableRng};
use rand_chacha::ChaChaRng;
use site_plan::SiteRng;

#[test]
fn first_words_of_the_zero_seed() {
    let mut rng = SiteRng::from_seed([0; 32]);
    assert_eq!(rng.next_u32(), 0xade0b876);
    assert_eq!(rng.next_u32(), 0x903df1a0);
    assert_eq!(rng.pos, 2);
}

#[test]
fn draws_agree_with_chacha() {
    let mut ours = SiteRng::from_seed([7; 32]);
    let mut theirs = ChaChaRng::from_seed([7; 32]);
    let items = vec![10u8, 20, 30, 40, 50];
    for _ in 0..200 {
        assert_eq!(ours.next_u32(), theirs.gen::<u32>());
        assert_eq!(ours.next_bool(), theirs.gen::<bool>());
        assert_eq!(ours.next_range(1, 4), theirs.gen_range(1..4));
        assert_eq!(ours.next_range(-1000, 1000), theirs.gen_range(-1000..1000));
        assert_eq!(ours.pick(&items), items.choose(&mut theirs).copied());
        assert_eq!(ours.pos, theirs.get_word_pos());
    }
}

#[test]
fn flags_are_top_bits() {
    let mut flags = SiteRng::from_seed([3; 32]);
    let mut words = SiteRng::from_seed([3; 32]);
    for _ in 0..64 {
        assert_eq!(flags.next_bool(), words.next_u32() >= 0x8000_0000);
    }
}

#[test]
fn nothing_is_picked_from_nothing() {
    let mut rng = SiteRng::from_seed([1; 32]);
    let none: Vec<u8> = Vec::new();
    assert_eq!(rng.pick(&none), None);
    assert_eq!(rng, SiteRng::from_seed([1; 32]));
}

#[test]
fn reseeding_agrees_with_chacha() {
    let mut ours = SiteRng::from_seed([9; 32]);
    let mut theirs = ChaChaRng::from_seed([9; 32]);
    let mut child = ours.reseed();
    let mut their_child = ChaChaRng::from_seed(theirs.gen::<[u8; 32]>());
    for _ in 0..10 {
        assert_eq!(child.next_u32(), their_child.gen::<u32>());
    }
    assert_eq!(ours.next_u32(), theirs.gen::<u32>());
}

#[test]
fn parents_do_not_depend_on_children() {
    let mut a = SiteRng::from_seed([5; 32]);
    let mut b = SiteRng::from_seed([5; 32]);
    let mut busy = a.reseed();
    for _ in 0..100 {
        busy.next_range(0, 10);
    }
    b.reseed();
    assert_eq!(a, b);
    assert_eq!(a.next_u32(), b.next_u32());
    assert_eq!(a.pos, 33);
}

#[test]
fn ranges_hold_their_draws() {
    let mut rng = SiteRng::from_seed([2; 32]);
    let mut seen = [false; 3];
    for _ in 0..100 {
        let v = rng.next_range(1, 4);
        assert!((1..4).contains(&v));
        seen[(v - 1) as usize] = true;
    }
    assert_eq!(seen, [true, true, true]);
}
