use hextrap::hex::Coord;
use hextrap::net::ServerMsg;
use hextrap::room::{Room, RoomError};
use hextrap::types::{Action, BoardConfig, GameState, GameStatus, Turn};

fn c(q: i32, r: i32) -> Coord {
    Coord { q, r }
}

fn human_room() -> Room {
    Room::new(String::from("room-1"), String::from("first"), false)
}

#[test]
fn two_distinct_clients_fill_the_seats_and_start() {
    let mut room = human_room();
    let (r1, eff1) = room.join(1, 7);
    assert_eq!(r1, Ok(()));
    assert_eq!(room.trapper, Some(1));
    assert_eq!(room.mouse_seat, None);
    assert!(!room.started);
    assert_eq!(eff1.len(), 1);
    assert_eq!(eff1[0].to, 1);
    assert_eq!(
        eff1[0].msg,
        ServerMsg::LobbyState { room_id: String::from("room-1"), players: 1, vs_bot: false }
    );

    let (r2, eff2) = room.join(2, 7);
    assert_eq!(r2, Ok(()));
    assert_eq!(room.trapper, Some(1));
    assert_eq!(room.mouse_seat, Some(2));
    assert!(room.started);
    assert!(room.game.is_some());
    // lobby update to both, then each player's start announcement
    assert_eq!(eff2.len(), 4);
    assert_eq!(eff2[0].to, 1);
    assert_eq!(eff2[1].to, 2);
    assert_eq!(eff2[2].to, 1);
    assert_eq!(eff2[3].to, 2);
    match &eff2[2].msg {
        ServerMsg::GameStart { state, your_role } => {
            assert_eq!(*your_role, Turn::Trapper);
            assert_eq!(state.cfg.radius, 6);
            assert_eq!(state.cfg.initial_blocks, 8);
        },
        other => panic!("expected a start announcement, got {:?}", other),
    }
    match &eff2[3].msg {
        ServerMsg::GameStart { your_role, .. } => assert_eq!(*your_role, Turn::Mouse),
        other => panic!("expected a start announcement, got {:?}", other),
    }

    let (r3, eff3) = room.join(3, 7);
    assert_eq!(r3, Err(RoomError::AlreadyStarted));
    assert!(eff3.is_empty());
}

#[test]
fn a_room_with_no_free_seat_turns_a_new_client_away() {
    // both seats taken before a start: only reachable by hand, since filling
    // the second seat starts the game, but the refusal itself is fixed
    let mut room = Room::new(String::from("room-3"), String::from("third"), false);
    room.trapper = Some(1);
    room.mouse_seat = Some(2);
    let (r, eff) = room.join(3, 7);
    assert_eq!(r, Err(RoomError::RoomFull));
    assert!(eff.is_empty());
    assert_eq!(RoomError::RoomFull.message(), "room is full");
    // the one seat of a room against the bot behaves the same way
    let mut bot_room = Room::new(String::from("room-4"), String::from("fourth"), true);
    bot_room.trapper = Some(1);
    let (r, eff) = bot_room.join(2, 7);
    assert_eq!(r, Err(RoomError::RoomFull));
    assert!(eff.is_empty());
}

#[test]
fn rejoining_the_same_room_is_refused() {
    let mut room = human_room();
    assert_eq!(room.join(5, 7).0, Ok(()));
    let (r, eff) = room.join(5, 7);
    assert_eq!(r, Err(RoomError::AlreadyInRoom));
    assert!(eff.is_empty());
    assert_eq!(RoomError::AlreadyInRoom.message(), "already in this room");
}

#[test]
fn leave_discards_a_running_game() {
    let mut room = human_room();
    room.join(1, 7);
    room.join(2, 7);
    assert!(room.started && room.game.is_some());
    let eff = room.leave(1);
    assert!(!room.started);
    assert!(room.game.is_none());
    assert_eq!(room.trapper, None);
    assert_eq!(room.mouse_seat, Some(2));
    // the remaining occupant learns the new lobby state
    assert_eq!(eff.len(), 1);
    assert_eq!(eff[0].to, 2);
    assert_eq!(
        eff[0].msg,
        ServerMsg::LobbyState { room_id: String::from("room-1"), players: 1, vs_bot: false }
    );
    // a stranger's leave changes nothing
    let eff = room.leave(9);
    assert!(eff.is_empty());
    assert_eq!(room.mouse_seat, Some(2));
}

fn seeded_room() -> Room {
    // a started two-player room with a hand-laid board: mouse at the center
    // of a radius-3 board, one wall at (1, 1)
    let mut room = human_room();
    room.join(1, 7);
    room.join(2, 7);
    room.game = Some(GameState {
        cfg: BoardConfig { radius: 3, initial_blocks: 1, seed: 7 },
        mouse: c(0, 0),
        blocks: vec![c(1, 1)],
        turn: Turn::Trapper,
        status: GameStatus::Running,
    });
    room
}

#[test]
fn action_before_start_reports_game_not_started() {
    let mut room = human_room();
    room.join(1, 7);
    let eff = room.action(1, Action::PlaceBlock { at: c(1, 0) });
    assert_eq!(eff.len(), 1);
    assert_eq!(eff[0].to, 1);
    assert_eq!(eff[0].msg, ServerMsg::Error { message: String::from("game not started") });
}

#[test]
fn acting_out_of_turn_is_reported_to_the_actor_only() {
    let mut room = seeded_room();
    let eff = room.action(2, Action::MoveMouse { to: c(1, 0) });
    assert_eq!(eff.len(), 1);
    assert_eq!(eff[0].to, 2);
    assert_eq!(eff[0].msg, ServerMsg::Error { message: String::from("not your turn") });
}

#[test]
fn a_lawful_action_updates_both_seats() {
    let mut room = seeded_room();
    let eff = room.action(1, Action::PlaceBlock { at: c(2, 0) });
    assert_eq!(eff.len(), 2);
    assert_eq!(eff[0].to, 1);
    assert_eq!(eff[1].to, 2);
    let g = room.game.as_ref().unwrap();
    assert_eq!(g.blocks, vec![c(1, 1), c(2, 0)]);
    assert_eq!(g.turn, Turn::Mouse);
    match &eff[0].msg {
        ServerMsg::GameUpdate { state } => assert_eq!(state, g),
        other => panic!("expected an update, got {:?}", other),
    }
}

#[test]
fn a_rules_error_goes_back_to_the_actor_alone() {
    let mut room = seeded_room();
    let eff = room.action(1, Action::PlaceBlock { at: c(0, 0) });
    assert_eq!(eff.len(), 1);
    assert_eq!(eff[0].to, 1);
    assert_eq!(eff[0].msg, ServerMsg::Error { message: String::from("cannot block mouse cell") });
    assert_eq!(room.game.as_ref().unwrap().blocks, vec![c(1, 1)]);
}

#[test]
fn bot_room_starts_on_the_first_join_and_answers_moves() {
    let mut room = Room::new(String::from("room-b"), String::from("bots"), true);
    let (r, eff) = room.join(8, 3);
    assert_eq!(r, Ok(()));
    assert!(room.started);
    assert_eq!(room.mouse_seat, None);
    // lobby update and the trapper's start announcement, both to the one client
    assert_eq!(eff.len(), 2);
    assert_eq!(eff[0].to, 8);
    assert_eq!(eff[1].to, 8);
    assert!(!room.needs_bot_move());
    // the trapper plays; then the bot owes the mouse's turn
    let free = first_free_cell(&room);
    let eff = room.action(8, Action::PlaceBlock { at: free });
    assert_eq!(eff.len(), 1);
    assert!(room.needs_bot_move());
    let eff = room.bot_step();
    assert_eq!(eff.len(), 1);
    assert_eq!(eff[0].to, 8);
    let g = room.game.as_ref().unwrap();
    assert_ne!(g.mouse, c(0, 0));
    assert!(g.status == GameStatus::Running && g.turn == Turn::Trapper || g.status == GameStatus::MouseWon);
    assert!(!room.needs_bot_move() || g.status != GameStatus::Running);
}

fn first_free_cell(room: &Room) -> Coord {
    let g = room.game.as_ref().unwrap();
    for q in -6..=6i32 {
        for r in -6..=6i32 {
            let cell = c(q, r);
            if hextrap::hex::inside_board(cell, 6) && cell != g.mouse && !g.blocks.contains(&cell) {
                return cell;
            }
        }
    }
    panic!("no free cell on the board");
}

#[test]
fn snapshot_counts_the_seats() {
    let mut room = human_room();
    assert_eq!(room.snapshot().players, 0);
    assert!(!room.snapshot().started);
    room.join(1, 7);
    assert_eq!(room.snapshot().players, 1);
    room.join(2, 7);
    let snap = room.snapshot();
    assert_eq!(snap.players, 2);
    assert!(snap.started);
}
