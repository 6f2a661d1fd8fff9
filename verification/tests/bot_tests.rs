use hextrap::bot::choose_mouse_move;
use hextrap::hex::{hex_distance, is_neighbor_of, Coord};
use hextrap::types::{BoardConfig, GameState, GameStatus, Turn};

fn c(q: i32, r: i32) -> Coord {
    Coord { q, r }
}

fn state(radius: i32, mouse: Coord, blocks: Vec<Coord>) -> GameState {
    GameState {
        cfg: BoardConfig { radius, initial_blocks: blocks.len(), seed: 0 },
        mouse,
        blocks,
        turn: Turn::Mouse,
        status: GameStatus::Running,
    }
}

#[test]
fn open_board_step_goes_straight_for_the_border() {
    // with nothing walled off, the chosen step leaves the mouse one hex step
    // closer to the nearest border cell than it stood
    let s = state(4, c(2, -1), vec![]);
    let mv = choose_mouse_move(&s).unwrap();
    assert!(is_neighbor_of(s.mouse, mv));
    assert_eq!(hex_distance(c(0, 0), mv), hex_distance(c(0, 0), s.mouse) + 1);
}

#[test]
fn open_board_step_from_center() {
    let s = state(3, c(0, 0), vec![]);
    let mv = choose_mouse_move(&s).unwrap();
    assert!(is_neighbor_of(c(0, 0), mv));
    assert_eq!(hex_distance(c(0, 0), mv), 1);
}

#[test]
fn fully_enclosed_mouse_has_no_move() {
    let blocks = vec![c(1, 0), c(-1, 0), c(0, 1), c(0, -1), c(1, -1), c(-1, 1)];
    let s = state(3, c(0, 0), blocks);
    assert_eq!(choose_mouse_move(&s), None);
}

#[test]
fn single_gap_is_taken() {
    // five of six neighbors walled: the one free neighbor is the only answer
    let blocks = vec![c(1, 0), c(-1, 0), c(0, 1), c(0, -1), c(1, -1)];
    let s = state(3, c(0, 0), blocks);
    assert_eq!(choose_mouse_move(&s), Some(c(-1, 1)));
}

#[test]
fn walled_ring_still_reaches_the_border() {
    // a wall with one gap at (0, -1): the mouse's step must be legal and, as
    // the search goes through the gap, move toward it
    let blocks = vec![c(1, 0), c(-1, 0), c(0, 1), c(1, -1), c(-1, 1)];
    let s = state(3, c(0, 0), blocks.clone());
    let mv = choose_mouse_move(&s).unwrap();
    assert!(is_neighbor_of(c(0, 0), mv));
    assert!(!blocks.contains(&mv));
    assert_eq!(mv, c(0, -1));
}

#[test]
fn an_adjacent_winning_cell_is_never_missed() {
    // one step from the rim: the chosen move must be a rim cell
    let s = state(4, c(3, 0), vec![]);
    let mv = choose_mouse_move(&s).unwrap();
    assert!(is_neighbor_of(c(3, 0), mv));
    assert_eq!(hex_distance(c(0, 0), mv), 4);
    // even when some rim neighbors are walled off
    let s = state(4, c(3, 0), vec![c(4, 0), c(4, -1)]);
    let mv = choose_mouse_move(&s).unwrap();
    assert!(is_neighbor_of(c(3, 0), mv));
    assert_eq!(hex_distance(c(0, 0), mv), 4);
    assert_eq!(mv, c(3, 1));
}

#[test]
fn ties_follow_the_fixed_neighbor_order() {
    // every neighbor wins on a radius-1 board: the first in the order is taken
    let s = state(1, c(0, 0), vec![]);
    assert_eq!(choose_mouse_move(&s), Some(c(1, 0)));
    // on a radius-2 board the first-seeded path reaches the rim first
    let s = state(2, c(0, 0), vec![]);
    assert_eq!(choose_mouse_move(&s), Some(c(1, 0)));
}

#[test]
fn the_chooser_is_deterministic() {
    let s = state(3, c(1, -1), vec![c(2, -1), c(0, 0)]);
    assert_eq!(choose_mouse_move(&s), choose_mouse_move(&s));
}

#[test]
fn mouse_already_on_border_moves_outward_anyway() {
    // the chooser answers for any well-formed position, border included
    let s = state(2, c(2, 0), vec![]);
    let mv = choose_mouse_move(&s).unwrap();
    assert!(is_neighbor_of(c(2, 0), mv));
    assert!(hex_distance(c(0, 0), mv) <= 2);
}
