//! The connection bridge's policy: what one decoded client message asks of
//! the manager, which room membership is surrendered first, and how a join's
//! outcome settles the connection's current room. The connection loop around
//! it only performs the transport work these decisions call for.
use vstd::prelude::*;

use crate::net::{ClientMsg, ClientMsgModel};
use crate::types::Action;

verus! {

/// What the connection owes the manager after one decoded message.
pub enum BridgePlan {
    /// Answer with the current room list.
    SendRoomList,
    /// Create this room, then join it.
    OpenRoom { name: String, vs_bot: bool },
    /// Join this room.
    EnterRoom { room_id: String },
    /// Nothing beyond the surrendered membership.
    StayOut,
    /// Hand the action to the room the connection sits in.
    ForwardAction { room_id: String, action: Action },
    /// Tell the client it is in no room.
    ReplyNotInRoom,
}

/// The mathematical image of a [`BridgePlan`].
pub enum BridgePlanModel {
    SendRoomList,
    OpenRoom { name: Seq<char>, vs_bot: bool },
    EnterRoom { room_id: Seq<char> },
    StayOut,
    ForwardAction { room_id: Seq<char>, action: Action },
    ReplyNotInRoom,
}

impl View for BridgePlan {
    type V = BridgePlanModel;

    open spec fn view(&self) -> BridgePlanModel {
        match self {
            BridgePlan::SendRoomList => BridgePlanModel::SendRoomList,
            BridgePlan::OpenRoom { name, vs_bot } => BridgePlanModel::OpenRoom {
                name: name@,
                vs_bot: *vs_bot,
            },
            BridgePlan::EnterRoom { room_id } => BridgePlanModel::EnterRoom { room_id: room_id@ },
            BridgePlan::StayOut => BridgePlanModel::StayOut,
            BridgePlan::ForwardAction { room_id, action } => BridgePlanModel::ForwardAction {
                room_id: room_id@,
                action: *action,
            },
            BridgePlan::ReplyNotInRoom => BridgePlanModel::ReplyNotInRoom,
        }
    }
}

/// The view of a connection's current room.
pub open spec fn room_view(o: Option<String>) -> Option<Seq<char>> {
    match o {
        Some(s) => Some(s@),
        None => None,
    }
}

/// One step of the connection's dispatch: which membership to surrender
/// first, which membership remains, and what to ask of the manager.
pub struct BridgeStep {
    pub leave: Option<String>,
    pub stay: Option<String>,
    pub plan: BridgePlan,
}

/// Decide one decoded message, given the connection's current room.
///
/// A create, join or leave surrenders the current membership first; a listing
/// touches nothing; an action is forwarded to the current room and refused
/// without one.
pub fn bridge_dispatch(current: Option<String>, msg: ClientMsg) -> (r: BridgeStep)
    ensures
        msg@ is ListRooms ==> r.leave is None && room_view(r.stay) == room_view(current)
            && r.plan@ is SendRoomList,
        msg@ matches ClientMsgModel::CreateRoom { name, vs_bot } ==> room_view(r.leave)
            == room_view(current) && r.stay is None && r.plan@ == (BridgePlanModel::OpenRoom {
            name,
            vs_bot,
        }),
        msg@ matches ClientMsgModel::JoinRoom { room_id } ==> room_view(r.leave) == room_view(
            current,
        ) && r.stay is None && r.plan@ == (BridgePlanModel::EnterRoom { room_id }),
        msg@ is LeaveRoom ==> room_view(r.leave) == room_view(current) && r.stay is None
            && r.plan@ is StayOut,
        msg@ matches ClientMsgModel::PlayerAction { action } ==> r.leave is None && room_view(
            r.stay,
        ) == room_view(current) && (match current {
            Some(room) => r.plan@ == (BridgePlanModel::ForwardAction {
                room_id: room@,
                action,
            }),
            None => r.plan@ is ReplyNotInRoom,
        }),
{
    match msg {
        ClientMsg::ListRooms => BridgeStep {
            leave: None,
            stay: current,
            plan: BridgePlan::SendRoomList,
        },
        ClientMsg::CreateRoom { name, vs_bot } => BridgeStep {
            leave: current,
            stay: None,
            plan: BridgePlan::OpenRoom { name, vs_bot },
        },
        ClientMsg::JoinRoom { room_id } => BridgeStep {
            leave: current,
            stay: None,
            plan: BridgePlan::EnterRoom { room_id },
        },
        ClientMsg::LeaveRoom => BridgeStep {
            leave: current,
            stay: None,
            plan: BridgePlan::StayOut,
        },
        ClientMsg::PlayerAction { action } => match current {
            Some(room) => {
                let forwarded = room.clone();
                BridgeStep {
                    leave: None,
                    stay: Some(room),
                    plan: BridgePlan::ForwardAction { room_id: forwarded, action },
                }
            },
            None => BridgeStep {
                leave: None,
                stay: None,
                plan: BridgePlan::ReplyNotInRoom,
            },
        },
    }
}

/// Settle a join's outcome: the connection records the room only on success,
/// and owes itself the refusal otherwise.
pub fn bridge_join_outcome(room_id: String, outcome: Result<(), String>) -> (r: (
    Option<String>,
    Option<String>,
))
    ensures
        outcome is Ok ==> room_view(r.0) == Some(room_id@) && r.1 is None,
        outcome matches Err(e) ==> r.0 is None && (r.1 matches Some(t) && t@ == e@),
{
    match outcome {
        Ok(()) => (Some(room_id), None),
        Err(e) => (None, Some(e)),
    }
}

} // verus!
