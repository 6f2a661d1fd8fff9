//! The protocol spoken over a connection: client intents and server events,
//! together with the mathematical views the codec's contracts are stated
//! over.
use vstd::prelude::*;

use crate::types::{Action, GameModel, GameState, Turn};

verus! {

/// A room as the lobby lists it.
#[derive(Clone, Debug, PartialEq)]
pub struct RoomInfo {
    pub room_id: String,
    pub name: String,
    pub players: u8,
    pub vs_bot: bool,
}

/// What a client may ask of the server.
#[derive(Clone, Debug, PartialEq)]
pub enum ClientMsg {
    CreateRoom { name: String, vs_bot: bool },
    JoinRoom { room_id: String },
    LeaveRoom,
    PlayerAction { action: Action },
    ListRooms,
}

/// What the server tells a client.
#[derive(Clone, Debug, PartialEq)]
pub enum ServerMsg {
    RoomList { rooms: Vec<RoomInfo> },
    LobbyState { room_id: String, players: u8, vs_bot: bool },
    GameStart { state: GameState, your_role: Turn },
    GameUpdate { state: GameState },
    Error { message: String },
}

/// The mathematical image of a [`RoomInfo`].
pub struct RoomInfoModel {
    pub room_id: Seq<char>,
    pub name: Seq<char>,
    pub players: u8,
    pub vs_bot: bool,
}

/// The mathematical image of a [`ClientMsg`].
pub enum ClientMsgModel {
    CreateRoom { name: Seq<char>, vs_bot: bool },
    JoinRoom { room_id: Seq<char> },
    LeaveRoom,
    PlayerAction { action: Action },
    ListRooms,
}

/// The mathematical image of a [`ServerMsg`].
pub enum ServerMsgModel {
    RoomList { rooms: Seq<RoomInfoModel> },
    LobbyState { room_id: Seq<char>, players: u8, vs_bot: bool },
    GameStart { state: GameModel, your_role: Turn },
    GameUpdate { state: GameModel },
    Error { message: Seq<char> },
}

/// The views of a list of room entries, in order.
pub open spec fn room_infos_view(v: Seq<RoomInfo>) -> Seq<RoomInfoModel> {
    Seq::new(v.len(), |i: int| v[i]@)
}

impl View for RoomInfo {
    type V = RoomInfoModel;

    open spec fn view(&self) -> RoomInfoModel {
        RoomInfoModel {
            room_id: self.room_id@,
            name: self.name@,
            players: self.players,
            vs_bot: self.vs_bot,
        }
    }
}

impl View for ClientMsg {
    type V = ClientMsgModel;

    open spec fn view(&self) -> ClientMsgModel {
        match self {
            ClientMsg::CreateRoom { name, vs_bot } => ClientMsgModel::CreateRoom {
                name: name@,
                vs_bot: *vs_bot,
            },
            ClientMsg::JoinRoom { room_id } => ClientMsgModel::JoinRoom { room_id: room_id@ },
            ClientMsg::LeaveRoom => ClientMsgModel::LeaveRoom,
            ClientMsg::PlayerAction { action } => ClientMsgModel::PlayerAction { action: *action },
            ClientMsg::ListRooms => ClientMsgModel::ListRooms,
        }
    }
}

impl View for ServerMsg {
    type V = ServerMsgModel;

    open spec fn view(&self) -> ServerMsgModel {
        match self {
            ServerMsg::RoomList { rooms } => ServerMsgModel::RoomList {
                rooms: room_infos_view(rooms@),
            },
            ServerMsg::LobbyState { room_id, players, vs_bot } => ServerMsgModel::LobbyState {
                room_id: room_id@,
                players: *players,
                vs_bot: *vs_bot,
            },
            ServerMsg::GameStart { state, your_role } => ServerMsgModel::GameStart {
                state: state@,
                your_role: *your_role,
            },
            ServerMsg::GameUpdate { state } => ServerMsgModel::GameUpdate { state: state@ },
            ServerMsg::Error { message } => ServerMsgModel::Error { message: message@ },
        }
    }
}

} // verus!
