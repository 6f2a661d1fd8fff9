use hextrap::codec::{
    decode_client_msg, decode_game_state, decode_server_msg, encode_client_msg, encode_game_state,
    encode_server_msg,
};
use hextrap::hex::Coord;
use hextrap::net::{ClientMsg, RoomInfo, ServerMsg};
use hextrap::types::{Action, BoardConfig, GameState, GameStatus, Turn};

fn c(q: i32, r: i32) -> Coord {
    Coord { q, r }
}

fn sample_state() -> GameState {
    GameState {
        cfg: BoardConfig { radius: 6, initial_blocks: 3, seed: 0xDEAD_BEEF_u64 },
        mouse: c(-2, 1),
        blocks: vec![c(0, 3), c(-1, -4), c(5, 0)],
        turn: Turn::Mouse,
        status: GameStatus::Running,
    }
}

#[test]
fn game_state_round_trip() {
    let s = sample_state();
    let bytes = encode_game_state(&s);
    let (back, used) = decode_game_state(&bytes, 0).unwrap();
    assert_eq!(back, s);
    assert_eq!(used, bytes.len());
}

#[test]
fn game_state_round_trip_extremes() {
    let s = GameState {
        cfg: BoardConfig { radius: 0, initial_blocks: 0, seed: u64::MAX },
        mouse: c(0, 0),
        blocks: vec![],
        turn: Turn::Trapper,
        status: GameStatus::MouseWon,
    };
    let bytes = encode_game_state(&s);
    let (back, used) = decode_game_state(&bytes, 0).unwrap();
    assert_eq!(back, s);
    assert_eq!(used, bytes.len());
}

#[test]
fn client_msg_round_trips() {
    let msgs = vec![
        ClientMsg::CreateRoom { name: String::from("caffé ✻ nero"), vs_bot: true },
        ClientMsg::CreateRoom { name: String::new(), vs_bot: false },
        ClientMsg::JoinRoom { room_id: String::from("room\\\"7\n") },
        ClientMsg::LeaveRoom,
        ClientMsg::PlayerAction { action: Action::PlaceBlock { at: c(-3, 2) } },
        ClientMsg::PlayerAction { action: Action::MoveMouse { to: c(1, -1) } },
        ClientMsg::ListRooms,
    ];
    for m in msgs {
        let bytes = encode_client_msg(&m);
        let (back, used) = decode_client_msg(&bytes, 0).unwrap();
        assert_eq!(back, m);
        assert_eq!(used, bytes.len());
    }
}

#[test]
fn server_msg_round_trips() {
    let msgs = vec![
        ServerMsg::RoomList { rooms: vec![] },
        ServerMsg::RoomList {
            rooms: vec![
                RoomInfo {
                    room_id: String::from("a-1"),
                    name: String::from("alpha"),
                    players: 1,
                    vs_bot: false,
                },
                RoomInfo {
                    room_id: String::from("b-2"),
                    name: String::from("βeta"),
                    players: 2,
                    vs_bot: true,
                },
            ],
        },
        ServerMsg::LobbyState { room_id: String::from("a-1"), players: 2, vs_bot: false },
        ServerMsg::GameStart { state: sample_state(), your_role: Turn::Trapper },
        ServerMsg::GameStart { state: sample_state(), your_role: Turn::Mouse },
        ServerMsg::GameUpdate { state: sample_state() },
        ServerMsg::Error { message: String::from("not your turn") },
    ];
    for m in msgs {
        let bytes = encode_server_msg(&m);
        let (back, used) = decode_server_msg(&bytes, 0).unwrap();
        assert_eq!(back, m);
        assert_eq!(used, bytes.len());
    }
}

#[test]
fn round_trip_at_an_offset() {
    let m = ClientMsg::JoinRoom { room_id: String::from("deep") };
    let mut bytes = vec![0xAB, 0xCD, 0xEF];
    bytes.extend_from_slice(&encode_client_msg(&m));
    let (back, _) = decode_client_msg(&bytes, 3).unwrap();
    assert_eq!(back, m);
}

#[test]
fn bad_tags_and_truncation_are_rejected() {
    assert!(decode_client_msg(&vec![], 0).is_none());
    assert!(decode_client_msg(&vec![9], 0).is_none());
    assert!(decode_server_msg(&vec![200], 0).is_none());
    let m = ClientMsg::CreateRoom { name: String::from("half"), vs_bot: true };
    let bytes = encode_client_msg(&m);
    for cut in 0..bytes.len() {
        assert!(decode_client_msg(&bytes[..cut].to_vec(), 0).is_none());
    }
    let s = encode_game_state(&sample_state());
    assert!(decode_game_state(&s[..s.len() - 1].to_vec(), 0).is_none());
}

#[test]
fn invalid_code_points_are_rejected() {
    // a string whose one character claims a surrogate code point
    let mut bytes = vec![1u8]; // JoinRoom tag
    bytes.extend_from_slice(&1u64.to_le_bytes()); // one character
    bytes.extend_from_slice(&0xD800u32.to_le_bytes()); // not a scalar value
    assert!(decode_client_msg(&bytes, 0).is_none());
}

#[test]
fn encoding_is_deterministic() {
    let m = ServerMsg::GameUpdate { state: sample_state() };
    assert_eq!(encode_server_msg(&m), encode_server_msg(&m));
}
