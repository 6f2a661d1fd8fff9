use hextrap::hex::Coord;
use hextrap::rules::{apply_action, mouse_has_legal_moves, GameError};
use hextrap::types::{Action, BoardConfig, GameState, GameStatus, Turn};

fn c(q: i32, r: i32) -> Coord {
    Coord { q, r }
}

fn state(radius: i32, mouse: Coord, blocks: Vec<Coord>, turn: Turn, status: GameStatus) -> GameState {
    GameState {
        cfg: BoardConfig { radius, initial_blocks: blocks.len(), seed: 0 },
        mouse,
        blocks,
        turn,
        status,
    }
}

#[test]
fn place_block_succeeds_and_passes_turn() {
    let s = state(4, c(0, 0), vec![], Turn::Trapper, GameStatus::Running);
    let s2 = apply_action(s, Action::PlaceBlock { at: c(1, 0) }).unwrap();
    assert_eq!(s2.blocks, vec![c(1, 0)]);
    assert_eq!(s2.turn, Turn::Mouse);
    assert_eq!(s2.status, GameStatus::Running);
    assert_eq!(s2.mouse, c(0, 0));
}

#[test]
fn place_block_on_mouse_fails_block_mouse() {
    let s = state(4, c(0, 0), vec![], Turn::Trapper, GameStatus::Running);
    let kept = s.clone();
    let e = apply_action(s, Action::PlaceBlock { at: c(0, 0) }).unwrap_err();
    assert_eq!(e, GameError::BlockMouse);
    // the caller's retained state is what the next turn plays from
    assert_eq!(kept, state(4, c(0, 0), vec![], Turn::Trapper, GameStatus::Running));
}

#[test]
fn move_to_non_adjacent_cell_fails_not_neighbor() {
    let s = state(4, c(0, 0), vec![], Turn::Mouse, GameStatus::Running);
    let e = apply_action(s, Action::MoveMouse { to: c(2, 0) }).unwrap_err();
    assert_eq!(e, GameError::NotNeighbor);
}

#[test]
fn move_to_border_wins_for_mouse_and_ends_the_game() {
    let s = state(1, c(0, 0), vec![], Turn::Mouse, GameStatus::Running);
    let s2 = apply_action(s, Action::MoveMouse { to: c(1, 0) }).unwrap();
    assert_eq!(s2.status, GameStatus::MouseWon);
    assert_eq!(s2.mouse, c(1, 0));
    let e = apply_action(s2, Action::PlaceBlock { at: c(0, 1) }).unwrap_err();
    assert_eq!(e, GameError::GameEnded);
}

#[test]
fn finished_game_rejects_every_action() {
    let s = state(4, c(0, 0), vec![], Turn::Trapper, GameStatus::TrapperWon);
    let kept = s.clone();
    let e = apply_action(s, Action::PlaceBlock { at: c(1, 0) }).unwrap_err();
    assert_eq!(e, GameError::GameEnded);
    let e2 = apply_action(kept, Action::MoveMouse { to: c(1, 0) }).unwrap_err();
    assert_eq!(e2, GameError::GameEnded);
}

#[test]
fn wrong_turn_is_rejected_both_ways() {
    let s = state(4, c(0, 0), vec![], Turn::Mouse, GameStatus::Running);
    let e = apply_action(s, Action::PlaceBlock { at: c(1, 0) }).unwrap_err();
    assert_eq!(e, GameError::WrongTurn);
    let s = state(4, c(0, 0), vec![], Turn::Trapper, GameStatus::Running);
    let e = apply_action(s, Action::MoveMouse { to: c(1, 0) }).unwrap_err();
    assert_eq!(e, GameError::WrongTurn);
}

#[test]
fn outside_board_is_rejected() {
    let s = state(2, c(0, 0), vec![], Turn::Trapper, GameStatus::Running);
    let e = apply_action(s, Action::PlaceBlock { at: c(3, 0) }).unwrap_err();
    assert_eq!(e, GameError::OutsideBoard);
    let s = state(2, c(2, 0), vec![], Turn::Mouse, GameStatus::Running);
    let e = apply_action(s, Action::MoveMouse { to: c(3, 0) }).unwrap_err();
    assert_eq!(e, GameError::OutsideBoard);
}

#[test]
fn blocked_cell_is_rejected() {
    let s = state(4, c(0, 0), vec![c(1, 0)], Turn::Trapper, GameStatus::Running);
    let e = apply_action(s, Action::PlaceBlock { at: c(1, 0) }).unwrap_err();
    assert_eq!(e, GameError::Blocked);
    let s = state(4, c(0, 0), vec![c(1, 0)], Turn::Mouse, GameStatus::Running);
    let e = apply_action(s, Action::MoveMouse { to: c(1, 0) }).unwrap_err();
    assert_eq!(e, GameError::Blocked);
}

#[test]
fn mouse_has_legal_moves_reports_freedom() {
    let s = state(2, c(0, 0), vec![c(1, 0)], Turn::Mouse, GameStatus::Running);
    assert!(mouse_has_legal_moves(&s));
    let all = vec![c(1, 0), c(-1, 0), c(0, 1), c(0, -1), c(1, -1), c(-1, 1)];
    let s = state(2, c(0, 0), all, Turn::Mouse, GameStatus::Running);
    assert!(!mouse_has_legal_moves(&s));
}

#[test]
fn error_messages_have_fixed_wording() {
    assert_eq!(GameError::GameEnded.message(), "game already ended");
    assert_eq!(GameError::WrongTurn.message(), "wrong turn");
    assert_eq!(GameError::OutsideBoard.message(), "cell not on board");
    assert_eq!(GameError::Blocked.message(), "cell is blocked");
    assert_eq!(GameError::BlockMouse.message(), "cannot block mouse cell");
    assert_eq!(GameError::NotNeighbor.message(), "mouse move must be to a neighbor");
}

#[test]
fn apply_action_is_deterministic_on_equal_inputs() {
    let mk = || state(3, c(1, 0), vec![c(0, 1), c(-1, 0)], Turn::Trapper, GameStatus::Running);
    let a = Action::PlaceBlock { at: c(2, -2) };
    let r1 = apply_action(mk(), a).unwrap();
    let r2 = apply_action(mk(), a).unwrap();
    assert_eq!(r1, r2);
}
