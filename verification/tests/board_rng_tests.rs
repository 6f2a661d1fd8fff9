use hextrap::board::{make_initial_state, DEFAULT_INITIAL_BLOCKS, DEFAULT_RADIUS};
use hextrap::hex::{hex_distance, Coord};
use hextrap::rng::{fisher_yates, XorShift64, ZERO_SEED_SUBSTITUTE};
use hextrap::types::{GameStatus, Turn};

fn c(q: i32, r: i32) -> Coord {
    Coord { q, r }
}

#[test]
fn xorshift_known_stream() {
    let mut rng = XorShift64::new(1);
    assert_eq!(rng.next_u64(), 1082269761);
    assert_eq!(rng.next_u64(), 1152992998833853505);
    assert_eq!(rng.next_u64(), 11177516664432764457);
}

#[test]
fn zero_seed_is_remapped() {
    let mut a = XorShift64::new(0);
    let mut b = XorShift64::new(ZERO_SEED_SUBSTITUTE);
    let first = a.next_u64();
    assert_eq!(first, 15860402102123842989);
    assert_eq!(first, b.next_u64());
    assert_eq!(a.next_u64(), b.next_u64());
}

#[test]
fn gen_usize_stays_below_the_bound() {
    let mut rng = XorShift64::new(42);
    let v = rng.gen_usize(10);
    assert_eq!(v, 4);
    for upper in 1..20usize {
        let w = rng.gen_usize(upper);
        assert!(w < upper);
    }
    let z = rng.gen_usize(0);
    assert_eq!(z, 0);
}

#[test]
fn fisher_yates_is_reproducible() {
    let mut v = vec![c(10, 0), c(20, 0), c(30, 0), c(40, 0), c(50, 0)];
    let mut rng = XorShift64::new(7);
    fisher_yates(&mut v, &mut rng);
    assert_eq!(v, vec![c(50, 0), c(20, 0), c(40, 0), c(10, 0), c(30, 0)]);
}

#[test]
fn fisher_yates_keeps_the_elements() {
    let orig = vec![c(1, 1), c(2, 2), c(3, 3), c(4, 4), c(5, 5), c(6, 6), c(7, 7)];
    let mut v = orig.clone();
    let mut rng = XorShift64::new(99);
    fisher_yates(&mut v, &mut rng);
    assert_eq!(v.len(), orig.len());
    for x in &orig {
        assert!(v.contains(x));
    }
}

#[test]
fn initial_state_is_deterministic_in_the_seed() {
    let a = make_initial_state(6, 8, 12345);
    let b = make_initial_state(6, 8, 12345);
    assert_eq!(a, b);
    assert_eq!(a.blocks, b.blocks);
}

#[test]
fn different_seeds_give_different_boards() {
    let a = make_initial_state(6, 8, 1);
    let b = make_initial_state(6, 8, 2);
    assert_ne!(a.blocks, b.blocks);
}

#[test]
fn initial_state_shape() {
    let s = make_initial_state(DEFAULT_RADIUS, DEFAULT_INITIAL_BLOCKS, 77);
    assert_eq!(s.cfg.radius, 6);
    assert_eq!(s.cfg.initial_blocks, 8);
    assert_eq!(s.cfg.seed, 77);
    assert_eq!(s.mouse, c(0, 0));
    assert_eq!(s.turn, Turn::Trapper);
    assert_eq!(s.status, GameStatus::Running);
    assert_eq!(s.blocks.len(), 8);
    for b in &s.blocks {
        assert!(hex_distance(c(0, 0), *b) <= 6);
        assert_ne!(*b, c(0, 0));
    }
    for i in 0..s.blocks.len() {
        for j in 0..s.blocks.len() {
            if i != j {
                assert_ne!(s.blocks[i], s.blocks[j]);
            }
        }
    }
}

#[test]
fn tiny_board_caps_the_block_count() {
    // a radius-1 board has six cells beside the center
    let s = make_initial_state(1, 100, 5);
    assert_eq!(s.blocks.len(), 6);
    let s = make_initial_state(0, 3, 5);
    assert_eq!(s.blocks.len(), 0);
}
